//! Binary messages of the exchange service: a ten-byte header, the body of
//! the transaction, and (on the wire) an Ed25519 signature of the two.

use vstd::prelude::*;
use crate::crypto::{ed25519_accepts, ed25519_signature, KeyPair, SIGNATURE_LEN};
use crate::hexstr::{encode_hex, hex_encode};
use crate::le::{i32_le, u16_le, u32_le, write_i32_le, write_u16_le, write_u32_le, write_u8};

verus! {

/// Length of the message header, in bytes.
pub const SERVICE_DATA_LEN: usize = 10;

/// A value with a binary encoding.
pub trait Fill: Sized {
    /// The bytes that `fill` writes.
    spec fn encoding(&self) -> Seq<u8>;

    /// Encodes the value.
    fn fill(&self) -> (r: Vec<u8>)
        requires
            self.encoding().len() + SIGNATURE_LEN <= usize::MAX,
        ensures
            r@ == self.encoding(),
    ;
}

/// The value of the header's length field: the length of the whole signed
/// message (header, body and signature), modulo 2^32.
pub open spec fn length_field(body_len: nat) -> u32 {
    ((SERVICE_DATA_LEN + body_len + SIGNATURE_LEN) % 0x1_0000_0000) as u32
}

/// The header of a message whose body is `body_len` bytes long.
pub open spec fn header_bytes(
    network_id: u8,
    protocol_version: u8,
    message_id: u16,
    service_id: u16,
    body_len: nat,
) -> Seq<u8> {
    seq![network_id, protocol_version] + u16_le(message_id) + u16_le(service_id) + u32_le(
        length_field(body_len),
    )
}

/// A transaction message: header fields and a body.
pub struct Message<T> {
    pub network_id: u8,
    pub protocol_version: u8,
    pub service_id: u16,
    pub message_id: u16,
    pub body: T,
}

impl<T: Fill> Fill for Message<T> {
    open spec fn encoding(&self) -> Seq<u8> {
        header_bytes(
            self.network_id,
            self.protocol_version,
            self.message_id,
            self.service_id,
            self.body.encoding().len(),
        ) + self.body.encoding()
    }

    fn fill(&self) -> (r: Vec<u8>) {
        let mut payload = self.body.fill();
        let mut buffer: Vec<u8> = Vec::new();
        write_u8(&mut buffer, self.network_id);
        write_u8(&mut buffer, self.protocol_version);
        write_u16_le(&mut buffer, self.message_id);
        write_u16_le(&mut buffer, self.service_id);
        let len: usize = SERVICE_DATA_LEN + payload.len() + SIGNATURE_LEN;
        let len32: u32 = ((len as u64) % 0x1_0000_0000u64) as u32;
        write_u32_le(&mut buffer, len32);
        buffer.append(&mut payload);
        assert(buffer@ =~= self.encoding());
        buffer
    }
}

/// What a signed message adds to its fields when it is sent: the length of
/// the body and the signature, in bytes and in hexadecimal.
pub struct Envelope {
    pub size: usize,
    pub signature: [u8; 64],
    pub signature_hex: String,
}

impl<T: Fill> Message<T> {
    /// Signs the encoded message with `keypair`.
    pub fn to_exonum(&self, keypair: &KeyPair) -> (r: Envelope)
        requires
            self.encoding().len() + SIGNATURE_LEN <= usize::MAX,
        ensures
            r.size == self.body.encoding().len(),
            r.signature@ == ed25519_signature(keypair.secret_key(), self.encoding()),
            ed25519_accepts(keypair.public_key(), self.encoding(), r.signature@),
            r.signature_hex@ == hex_encode(r.signature@),
    {
        let data = self.fill();
        let signature = keypair.sign(data.as_slice());
        let size = self.body.fill().len();
        let signature_hex = encode_hex(signature.as_slice());
        Envelope { size, signature, signature_hex }
    }

    /// The raw message: the encoded message followed by its signature.
    pub fn to_raw(&self, signature: &[u8; 64]) -> (r: Vec<u8>)
        requires
            self.encoding().len() + SIGNATURE_LEN <= usize::MAX,
        ensures
            r@ == self.encoding() + signature@,
    {
        let mut data = self.fill();
        let mut i: usize = 0;
        while i < SIGNATURE_LEN
            invariant
                i <= SIGNATURE_LEN,
                data@ == self.encoding() + signature@.subrange(0, i as int),
            decreases SIGNATURE_LEN - i,
        {
            data.push(signature[i]);
            assert(signature@.subrange(0, i + 1) =~= signature@.subrange(0, i as int).push(signature@[i as int]));
            i = i + 1;
        }
        assert(signature@.subrange(0, 64) =~= signature@);
        data
    }
}

/// Appends the bytes of a 32-byte key.
fn push_key(buffer: &mut Vec<u8>, key: &[u8; 32])
    ensures
        final(buffer)@ == old(buffer)@ + key@,
{
    let mut i: usize = 0;
    while i < 32
        invariant
            i <= 32,
            buffer@ == old(buffer)@ + key@.subrange(0, i as int),
        decreases 32 - i,
    {
        buffer.push(key[i]);
        assert(key@.subrange(0, i + 1) =~= key@.subrange(0, i as int).push(key@[i as int]));
        i = i + 1;
    }
    assert(key@.subrange(0, 32) =~= key@);
}

/// Opens an account for `owner`.
pub struct TxCreate {
    pub owner: [u8; 32],
}

impl Fill for TxCreate {
    open spec fn encoding(&self) -> Seq<u8> {
        self.owner@
    }

    fn fill(&self) -> (r: Vec<u8>) {
        let mut buffer: Vec<u8> = Vec::new();
        push_key(&mut buffer, &self.owner);
        assert(buffer@ =~= self.encoding());
        buffer
    }
}

/// Places order `id` of `owner`: `amount` tokens at `price` (a negative
/// amount sells).
pub struct TxOrder {
    pub owner: [u8; 32],
    pub price: u32,
    pub amount: i32,
    pub id: u32,
}

impl Fill for TxOrder {
    open spec fn encoding(&self) -> Seq<u8> {
        self.owner@ + u32_le(self.price) + i32_le(self.amount) + u32_le(self.id)
    }

    fn fill(&self) -> (r: Vec<u8>) {
        let mut buffer: Vec<u8> = Vec::new();
        push_key(&mut buffer, &self.owner);
        write_u32_le(&mut buffer, self.price);
        write_i32_le(&mut buffer, self.amount);
        write_u32_le(&mut buffer, self.id);
        buffer
    }
}

/// Cancels order `id` of `owner`.
pub struct TxCancel {
    pub owner: [u8; 32],
    pub id: u32,
}

impl Fill for TxCancel {
    open spec fn encoding(&self) -> Seq<u8> {
        self.owner@ + u32_le(self.id)
    }

    fn fill(&self) -> (r: Vec<u8>) {
        let mut buffer: Vec<u8> = Vec::new();
        push_key(&mut buffer, &self.owner);
        write_u32_le(&mut buffer, self.id);
        buffer
    }
}

} // verus!
