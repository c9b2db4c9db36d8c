use cryptoexchange::message::{Message, TxOrder};
use cryptoexchange::node::ExchangeService;
use cryptoexchange::protocol::{tx_from_raw, Transaction, SERVICE_ID, TX_ORDER};
use cryptoexchange::request::{RequestError, TransactionRequest};

fn request(message_id: u16, owner: &str, signature: &str) -> TransactionRequest {
    TransactionRequest {
        network_id: 0,
        protocol_version: 0,
        message_id,
        service_id: SERVICE_ID,
        owner: owner.to_string(),
        price: 250,
        amount: -3,
        id: 17,
        signature: signature.to_string(),
    }
}

#[test]
fn request_becomes_the_raw_message() {
    let owner = [0xabu8; 32];
    let sig = [0x11u8; 64];
    let raw = request(TX_ORDER, &hex::encode(owner), &hex::encode(sig)).to_raw().unwrap();
    let m = Message { network_id: 0, protocol_version: 0, service_id: SERVICE_ID, message_id: TX_ORDER, body: TxOrder { owner, price: 250, amount: -3, id: 17 } };
    assert_eq!(raw, m.to_raw(&sig));
    let t = tx_from_raw(&raw).unwrap();
    assert!(matches!(t.message.body, Transaction::Order(TxOrder { price: 250, amount: -3, id: 17, .. })));
}

#[test]
fn request_errors_in_order() {
    let owner = hex::encode([1u8; 32]);
    let sig = hex::encode([2u8; 64]);
    assert_eq!(request(TX_ORDER, "zz", "zz").to_raw().err().unwrap(), RequestError::InvalidOwner);
    assert_eq!(request(TX_ORDER, "abcd", &sig).to_raw().err().unwrap(), RequestError::InvalidOwner);
    assert_eq!(request(TX_ORDER, &owner, "abcd").to_raw().err().unwrap(), RequestError::InvalidSignature);
    assert_eq!(request(9, &owner, &sig).to_raw().err().unwrap(), RequestError::UnknownMessageType { message_type: 9 });
}

#[test]
fn transaction_hash_is_sha256() {
    assert_eq!(
        hex::encode(ExchangeService.transaction_hash(b"abc")),
        "ba7816bf8f01cfea414140de5dae2223b00361a396177a9cb410ff61f20015ad"
    );
}
