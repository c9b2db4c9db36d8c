//! Transaction requests as clients send them: header fields, the body's
//! fields with the owner key in hexadecimal, and the signature in
//! hexadecimal.

use vstd::prelude::*;
use crate::hexstr::{decode_hex, hex_decode};
use crate::le::{i32_le, lemma_i32_roundtrip, lemma_u16_roundtrip, lemma_u32_roundtrip, u16_le, u32_le};
use crate::message::{header_bytes, Fill, Message, TxCancel, TxCreate, TxOrder};
use crate::protocol::{
    is_service_message, lemma_body_len, read_array, SignedTransaction, Transaction, SERVICE_ID, TX_CANCEL,
    TX_CREATE, TX_ORDER,
};

verus! {

/// A transaction request.
pub struct TransactionRequest {
    pub network_id: u8,
    pub protocol_version: u8,
    pub message_id: u16,
    pub service_id: u16,
    pub owner: String,
    pub price: u32,
    pub amount: i32,
    pub id: u32,
    pub signature: String,
}

/// Why a request is refused.
#[derive(Debug, PartialEq, Eq)]
pub enum RequestError {
    /// The owner is not the hexadecimal text of 32 bytes.
    InvalidOwner,
    /// The signature is not the hexadecimal text of 64 bytes.
    InvalidSignature,
    /// The message type is that of no transaction.
    UnknownMessageType { message_type: u16 },
}

/// `s` is the hexadecimal text of `n` bytes.
pub open spec fn is_hex_of_len(s: Seq<char>, n: nat) -> bool {
    hex_decode(s) matches Some(b) && b.len() == n
}

/// The body that a request of type `message_id` carries, or `None` for an
/// unknown type.
pub open spec fn request_body(message_id: u16, owner: Seq<u8>, price: u32, amount: i32, id: u32) -> Option<Seq<u8>> {
    if message_id == TX_CREATE {
        Some(owner)
    } else if message_id == TX_ORDER {
        Some(owner + u32_le(price) + i32_le(amount) + u32_le(id))
    } else if message_id == TX_CANCEL {
        Some(owner + u32_le(id))
    } else {
        None
    }
}

/// The `N` bytes that `text` denotes in hexadecimal, if it denotes `N` bytes.
fn decode_fixed<const N: usize>(text: &str) -> (r: Option<[u8; N]>)
    ensures
        r is Some <==> is_hex_of_len(text@, N as nat),
        r matches Some(b) ==> b@ == hex_decode(text@).unwrap(),
{
    match decode_hex(text) {
        Ok(bytes) => {
            if bytes.len() == N {
                let out: [u8; N] = read_array(bytes.as_slice(), 0);
                assert(out@ =~= bytes@);
                Some(out)
            } else {
                None
            }
        },
        Err(_) => None,
    }
}

impl TransactionRequest {
    /// The raw signed message the request stands for: the header, the body
    /// of its message type, and the signature. The owner is checked first,
    /// then the signature, then the message type.
    pub fn to_raw(&self) -> (r: Result<Vec<u8>, RequestError>)
        ensures
            !is_hex_of_len(self.owner@, 32) ==> r == Err::<Vec<u8>, RequestError>(RequestError::InvalidOwner),
            is_hex_of_len(self.owner@, 32) && !is_hex_of_len(self.signature@, 64) ==> r == Err::<
                Vec<u8>,
                RequestError,
            >(RequestError::InvalidSignature),
            is_hex_of_len(self.owner@, 32) && is_hex_of_len(self.signature@, 64) ==> match request_body(
                self.message_id,
                hex_decode(self.owner@).unwrap(),
                self.price,
                self.amount,
                self.id,
            ) {
                None => r == Err::<Vec<u8>, RequestError>(
                    RequestError::UnknownMessageType { message_type: self.message_id },
                ),
                Some(body) => r matches Ok(raw) && raw@ == header_bytes(
                    self.network_id,
                    self.protocol_version,
                    self.message_id,
                    self.service_id,
                    body.len(),
                ) + body + hex_decode(self.signature@).unwrap(),
            },
    {
        let owner: [u8; 32] = match decode_fixed(self.owner.as_str()) {
            Some(o) => o,
            None => return Err(RequestError::InvalidOwner),
        };
        let signature: [u8; 64] = match decode_fixed(self.signature.as_str()) {
            Some(s) => s,
            None => return Err(RequestError::InvalidSignature),
        };
        proof {
            lemma_u32_roundtrip(self.price);
            lemma_i32_roundtrip(self.amount);
            lemma_u32_roundtrip(self.id);
        }
        let body = if self.message_id == TX_CREATE {
            Transaction::Create(TxCreate { owner })
        } else if self.message_id == TX_ORDER {
            Transaction::Order(TxOrder { owner, price: self.price, amount: self.amount, id: self.id })
        } else if self.message_id == TX_CANCEL {
            Transaction::Cancel(TxCancel { owner, id: self.id })
        } else {
            return Err(RequestError::UnknownMessageType { message_type: self.message_id });
        };
        let message = Message {
            network_id: self.network_id,
            protocol_version: self.protocol_version,
            service_id: self.service_id,
            message_id: self.message_id,
            body,
        };
        Ok(message.to_raw(&signature))
    }
}

/// Law: the body of a request is the encoding of the transaction it names,
/// with the request's own owner, price, amount and identifier.
pub proof fn lemma_request_body_encodes(owner: [u8; 32], price: u32, amount: i32, id: u32)
    ensures
        request_body(TX_CREATE, owner@, price, amount, id) == Some(TxCreate { owner }.encoding()),
        request_body(TX_ORDER, owner@, price, amount, id) == Some(TxOrder { owner, price, amount, id }.encoding()),
        request_body(TX_CANCEL, owner@, price, amount, id) == Some(TxCancel { owner, id }.encoding()),
{
}

/// Law: the raw message of a request of the service decodes to the
/// transaction the request names: the same header fields, the request's
/// owner and signature, and for an order its price, amount and identifier,
/// for a cancel its identifier.
pub proof fn lemma_request_decodes_to_its_transaction(req: TransactionRequest, raw: Seq<u8>, t: SignedTransaction)
    requires
        is_hex_of_len(req.owner@, 32),
        is_hex_of_len(req.signature@, 64),
        request_body(req.message_id, hex_decode(req.owner@).unwrap(), req.price, req.amount, req.id) is Some,
        raw == header_bytes(
            req.network_id,
            req.protocol_version,
            req.message_id,
            req.service_id,
            request_body(req.message_id, hex_decode(req.owner@).unwrap(), req.price, req.amount, req.id).unwrap().len(),
        ) + request_body(req.message_id, hex_decode(req.owner@).unwrap(), req.price, req.amount, req.id).unwrap()
            + hex_decode(req.signature@).unwrap(),
        is_service_message(t.message),
        raw == t.message.encoding() + t.signature@,
    ensures
        t.message.network_id == req.network_id,
        t.message.protocol_version == req.protocol_version,
        t.message.message_id == req.message_id,
        t.message.service_id == req.service_id,
        req.service_id == SERVICE_ID,
        t.message.body.owner()@ == hex_decode(req.owner@).unwrap(),
        t.signature@ == hex_decode(req.signature@).unwrap(),
        req.message_id == TX_CREATE ==> t.message.body is Create,
        req.message_id == TX_ORDER ==> (t.message.body matches Transaction::Order(o) && o.price == req.price
            && o.amount == req.amount && o.id == req.id),
        req.message_id == TX_CANCEL ==> (t.message.body matches Transaction::Cancel(c) && c.id == req.id),
{
    let owner = hex_decode(req.owner@).unwrap();
    let sig = hex_decode(req.signature@).unwrap();
    let body = request_body(req.message_id, owner, req.price, req.amount, req.id).unwrap();
    let tb = t.message.body.encoding();
    lemma_body_len(t.message.body);
    lemma_u32_roundtrip(req.price);
    lemma_i32_roundtrip(req.amount);
    lemma_u32_roundtrip(req.id);
    let n: int = raw.len() as int;
    assert(body.len() + 74 == n);
    assert(tb.len() + 74 == n);
    lemma_u16_roundtrip(req.message_id);
    lemma_u16_roundtrip(t.message.message_id);
    lemma_u16_roundtrip(req.service_id);
    lemma_u16_roundtrip(t.message.service_id);
    assert(raw.subrange(2, 4) =~= u16_le(req.message_id));
    assert(raw.subrange(2, 4) =~= u16_le(t.message.message_id));
    assert(raw.subrange(4, 6) =~= u16_le(req.service_id));
    assert(raw.subrange(4, 6) =~= u16_le(t.message.service_id));
    assert(raw[0] == req.network_id && raw[0] == t.message.network_id);
    assert(raw[1] == req.protocol_version && raw[1] == t.message.protocol_version);
    assert(body =~= raw.subrange(10, n - 64));
    assert(tb =~= raw.subrange(10, n - 64));
    assert(sig =~= raw.subrange(n - 64, n));
    assert(t.signature@ =~= raw.subrange(n - 64, n));
    assert(owner =~= body.subrange(0, 32));
    assert(t.message.body.owner()@ =~= tb.subrange(0, 32));
    match t.message.body {
        Transaction::Create(x) => {},
        Transaction::Order(x) => {
            lemma_u32_roundtrip(x.price);
            lemma_i32_roundtrip(x.amount);
            lemma_u32_roundtrip(x.id);
            assert(body.subrange(32, 36) =~= u32_le(req.price));
            assert(tb.subrange(32, 36) =~= u32_le(x.price));
            assert(body.subrange(36, 40) =~= i32_le(req.amount));
            assert(tb.subrange(36, 40) =~= i32_le(x.amount));
            assert(body.subrange(40, 44) =~= u32_le(req.id));
            assert(tb.subrange(40, 44) =~= u32_le(x.id));
        },
        Transaction::Cancel(x) => {
            lemma_u32_roundtrip(x.id);
            assert(body.subrange(32, 36) =~= u32_le(req.id));
            assert(tb.subrange(32, 36) =~= u32_le(x.id));
        },
    }
}

} // verus!
