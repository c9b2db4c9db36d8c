use cryptoexchange::crypto::{verify_signature, KeyPair};
use cryptoexchange::message::{Fill, Message, TxCancel, TxCreate, TxOrder};
use cryptoexchange::protocol::{tx_from_raw, DecodeError, Transaction, SERVICE_ID, TX_CANCEL, TX_CREATE, TX_ORDER};

fn bytes32(s: &str) -> [u8; 32] {
    let v = hex::decode(s).unwrap();
    let mut out = [0u8; 32];
    out.copy_from_slice(&v);
    out
}

const RFC_SECRET: &str = "9d61b19deffd5a60ba844af492ec2cc44449c5697b326919703bac031cae7f60";
const RFC_PUBLIC: &str = "d75a980182b10ab7d54bfed3c964073a0ee172f3daa62325af021a68f707511a";
const RFC_SIGNATURE: &str = "e5564300c360ac729086e2cc806e828a84877f1eb8e5d974d873e065224901555fb8821590a33bacc61e39701cf9b46bd25bf5f0595bbe24655141438e7a100b";

fn order_message(owner: [u8; 32]) -> Message<TxOrder> {
    Message {
        network_id: 0,
        protocol_version: 0,
        service_id: SERVICE_ID,
        message_id: TX_ORDER,
        body: TxOrder { owner, price: 0x0102_0304, amount: -2, id: 7 },
    }
}

#[test]
fn tx_create_fill_is_the_owner_key() {
    let owner = [9u8; 32];
    assert_eq!(TxCreate { owner }.fill(), owner.to_vec());
}

#[test]
fn tx_order_fill_is_little_endian() {
    let owner = [1u8; 32];
    let bytes = TxOrder { owner, price: 0x0102_0304, amount: -2, id: 7 }.fill();
    let mut expected = owner.to_vec();
    expected.extend_from_slice(&[4, 3, 2, 1]);
    expected.extend_from_slice(&[0xfe, 0xff, 0xff, 0xff]);
    expected.extend_from_slice(&[7, 0, 0, 0]);
    assert_eq!(bytes, expected);
}

#[test]
fn tx_cancel_fill() {
    let owner = [2u8; 32];
    let bytes = TxCancel { owner, id: 0x0a0b }.fill();
    let mut expected = owner.to_vec();
    expected.extend_from_slice(&[0x0b, 0x0a, 0, 0]);
    assert_eq!(bytes, expected);
}

#[test]
fn message_header_counts_header_body_and_signature() {
    let m = order_message([1u8; 32]);
    let bytes = m.fill();
    assert_eq!(bytes.len(), 10 + 44);
    // network, protocol, message type 2, service 1, total length 118
    assert_eq!(&bytes[..10], &[0, 0, 2, 0, 1, 0, 118, 0, 0, 0]);
    assert_eq!(&bytes[10..], &m.body.fill()[..]);
}

#[test]
fn message_header_field_order() {
    let m = Message { network_id: 5, protocol_version: 6, service_id: 0x0102, message_id: 0x0304, body: TxCreate { owner: [0u8; 32] } };
    let bytes = m.fill();
    assert_eq!(&bytes[..10], &[5, 6, 4, 3, 2, 1, 106, 0, 0, 0]);
}

#[test]
fn keypair_matches_rfc8032_vector() {
    let kp = KeyPair::from_secret(bytes32(RFC_SECRET));
    assert_eq!(kp.public_bytes(), bytes32(RFC_PUBLIC));
    assert_eq!(kp.secret_bytes(), bytes32(RFC_SECRET));
    let sig = kp.sign(&[]);
    assert_eq!(hex::encode(sig), RFC_SIGNATURE);
    assert!(verify_signature(&kp.public_bytes(), &[], &sig));
    assert!(!verify_signature(&kp.public_bytes(), &[1], &sig));
}

#[test]
fn generated_keypairs_sign_and_verify() {
    let kp = KeyPair::generate();
    let sig = kp.sign(b"order");
    assert!(verify_signature(&kp.public_bytes(), b"order", &sig));
}

#[test]
fn to_exonum_signs_the_encoded_message() {
    let kp = KeyPair::from_secret(bytes32(RFC_SECRET));
    let m = order_message(kp.public_bytes());
    let env = m.to_exonum(&kp);
    assert_eq!(env.size, 44);
    assert_eq!(env.signature, kp.sign(&m.fill()));
    assert_eq!(env.signature_hex, hex::encode(env.signature));
    assert!(verify_signature(&kp.public_bytes(), &m.fill(), &env.signature));
}

#[test]
fn raw_message_roundtrip() {
    let kp = KeyPair::from_secret(bytes32(RFC_SECRET));
    let m = order_message(kp.public_bytes());
    let sig = m.to_exonum(&kp).signature;
    let raw = m.to_raw(&sig);
    assert_eq!(raw.len(), 118);
    let t = tx_from_raw(&raw).ok().unwrap();
    assert_eq!(t.signature, sig);
    assert_eq!(t.message.message_id, TX_ORDER);
    match &t.message.body {
        Transaction::Order(o) => {
            assert_eq!(o.owner, kp.public_bytes());
            assert_eq!(o.price, 0x0102_0304);
            assert_eq!(o.amount, -2);
            assert_eq!(o.id, 7);
        }
        _ => panic!("wrong transaction"),
    }
    assert!(t.verify());
}

#[test]
fn raw_create_and_cancel_roundtrip() {
    let owner = [3u8; 32];
    let sig = [4u8; 64];
    let create = Message { network_id: 1, protocol_version: 2, service_id: SERVICE_ID, message_id: TX_CREATE, body: TxCreate { owner } };
    let t = tx_from_raw(&create.to_raw(&sig)).ok().unwrap();
    assert_eq!(t.message.network_id, 1);
    assert_eq!(t.message.protocol_version, 2);
    assert!(matches!(t.message.body, Transaction::Create(TxCreate { owner: o }) if o == owner));
    assert!(!t.verify());
    let cancel = Message { network_id: 0, protocol_version: 0, service_id: SERVICE_ID, message_id: TX_CANCEL, body: TxCancel { owner, id: 99 } };
    let t = tx_from_raw(&cancel.to_raw(&sig)).ok().unwrap();
    assert!(matches!(t.message.body, Transaction::Cancel(TxCancel { id: 99, .. })));
}

#[test]
fn decode_rejects_short_message() {
    assert_eq!(
        tx_from_raw(&[0u8; 73]).err().unwrap(),
        DecodeError::UnexpectedlyShortPayload { actual_size: 73, minimum_size: 74 }
    );
}

#[test]
fn decode_rejects_unknown_message_type() {
    let m = order_message([1u8; 32]);
    let mut raw = m.to_raw(&[0u8; 64]);
    raw[2] = 9;
    assert_eq!(tx_from_raw(&raw).err().unwrap(), DecodeError::IncorrectMessageType { message_type: 9 });
}

#[test]
fn decode_rejects_wrong_length_field() {
    let m = order_message([1u8; 32]);
    let mut raw = m.to_raw(&[0u8; 64]);
    raw.push(0);
    assert_eq!(tx_from_raw(&raw).err().unwrap(), DecodeError::IncorrectLength { declared: 118, actual: 119 });
}

#[test]
fn decode_rejects_other_service() {
    let mut m = order_message([1u8; 32]);
    m.service_id = 5;
    let raw = m.to_raw(&[0u8; 64]);
    assert_eq!(tx_from_raw(&raw).err().unwrap(), DecodeError::IncorrectServiceId { service_id: 5 });
}

#[test]
fn decode_rejects_body_of_other_type() {
    // an order body announced as a cancel
    let mut m = order_message([1u8; 32]);
    m.message_id = TX_CANCEL;
    let raw = m.to_raw(&[0u8; 64]);
    assert_eq!(
        tx_from_raw(&raw).err().unwrap(),
        DecodeError::IncorrectBodyLength { message_type: TX_CANCEL, expected: 36, actual: 44 }
    );
}
