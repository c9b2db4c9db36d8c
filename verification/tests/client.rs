use cryptoexchange::client::{fetch_result, Account, Command, ExonumService, Model, Msg, Order, OrderBook};
use cryptoexchange::config::{node_config, node_config_with, AllowOrigin, API_PORT, PEER_PORT};
use cryptoexchange::crypto::{verify_signature, KeyPair};
use cryptoexchange::message::Fill;
use cryptoexchange::protocol::{SERVICE_ID, TX_CANCEL, TX_CREATE, TX_ORDER};
use cryptoexchange::session;

fn rfc_keypair() -> KeyPair {
    let v = hex::decode("9d61b19deffd5a60ba844af492ec2cc44449c5697b326919703bac031cae7f60").unwrap();
    let mut secret = [0u8; 32];
    secret.copy_from_slice(&v);
    KeyPair::from_secret(secret)
}

#[test]
fn create_account_signs_a_create_request() {
    let mut service = ExonumService::new();
    let kp = rfc_keypair();
    let public = kp.public_bytes();
    let req = service.create_account_with(kp);
    assert_eq!(req.message.network_id, 0);
    assert_eq!(req.message.protocol_version, 0);
    assert_eq!(req.message.service_id, SERVICE_ID);
    assert_eq!(req.message.message_id, TX_CREATE);
    assert_eq!(req.message.body.owner, public);
    assert_eq!(req.envelope.size, 32);
    assert!(verify_signature(&public, &req.message.fill(), &req.envelope.signature));
    assert_eq!(service.get_owner(), "d75a980182b10ab7d54bfed3c964073a0ee172f3daa62325af021a68f707511a");
}

#[test]
fn create_account_with_random_key() {
    let mut service = ExonumService::new();
    assert!(service.put_order(1, 1, 1).is_none());
    let req = service.create_account();
    assert_eq!(hex::encode(req.message.body.owner), service.get_owner());
    service.order_transaction();
    assert_eq!(hex::encode(req.message.body.owner), service.get_owner());
}

#[test]
fn orders_and_cancels_are_signed_by_the_account() {
    let mut service = ExonumService::new();
    assert!(service.cancel_order(3).is_none());
    let kp = rfc_keypair();
    let public = kp.public_bytes();
    service.create_account_with(kp);
    let req = service.put_order(250, -3, 17).unwrap();
    assert_eq!(req.message.message_id, TX_ORDER);
    assert_eq!((req.message.body.owner, req.message.body.price, req.message.body.amount, req.message.body.id), (public, 250, -3, 17));
    assert_eq!(req.envelope.size, 44);
    assert!(verify_signature(&public, &req.message.fill(), &req.envelope.signature));
    let req = service.cancel_order(17).unwrap();
    assert_eq!(req.message.message_id, TX_CANCEL);
    assert_eq!(req.message.body.id, 17);
    assert_eq!(req.envelope.size, 36);
    assert_eq!(req.envelope.signature_hex, hex::encode(req.envelope.signature));
}

fn account() -> Account {
    Account { owner: "ab".to_string(), usd_balance: 1, token_balance: 2, orders: vec![3] }
}

#[test]
fn model_keeps_loaded_data() {
    let mut model = Model::new();
    assert!(model.account.is_none() && model.order_book.is_none());
    assert_eq!(model.update(Msg::Account(Ok(account()))), (true, Command::Nothing));
    assert_eq!(model.account.as_ref().unwrap().orders, vec![3]);
    assert_eq!(model.update(Msg::Account(Err("down".to_string()))), (true, Command::Nothing));
    assert_eq!(model.account.as_ref().unwrap().usd_balance, 1);
    let mut book = OrderBook::new();
    book.insert(3, Order { owner: "ab".to_string(), price: 5, amount: 6, id: 3 });
    assert_eq!(model.update(Msg::OrderBook(Ok(book))), (true, Command::Nothing));
    assert_eq!(model.order_book.as_ref().unwrap().len(), 1);
}

#[test]
fn model_commands() {
    let mut model = Model::new();
    assert_eq!(model.update(Msg::NeedUpdate(())), (true, Command::FetchUpdates));
    assert_eq!(model.update(Msg::PutOrder), (true, Command::PutOrder));
    assert_eq!(model.update(Msg::Cancel(4)), (true, Command::CancelOrder(4)));
    assert_eq!(model.update(Msg::Increment), (true, Command::Nothing));
    assert_eq!(model.update(Msg::Bulk(vec![Msg::Increment, Msg::Decrement])), (true, Command::Nothing));
    assert!(model.account.is_none());
}

#[test]
fn fetch_result_outcomes() {
    assert_eq!(fetch_result(true, Ok::<u32, String>(5)), Ok(5));
    assert_eq!(fetch_result(true, Err::<u32, String>("bad json".to_string())), Err("bad json".to_string()));
    assert_eq!(fetch_result(false, Ok::<u32, String>(5)), Err("fetch error...".to_string()));
}

#[test]
fn price_form_update() {
    let mut form = session::Model::new();
    assert_eq!(form.price_text, "");
    assert!(!form.update(session::Msg::UpdatePriceText("12".to_string())));
    assert_eq!(form.price_text, "12");
    assert!(form.update(session::Msg::SendOrder));
    assert_eq!(form.price_text, "12");
}

#[test]
fn node_config_single_validator() {
    let config = node_config();
    assert_eq!(config.listen_address.ip, [0, 0, 0, 0]);
    assert_eq!(config.listen_address.port, PEER_PORT);
    assert!(config.peers.is_empty());
    assert!(config.external_address.is_none());
    let api = config.api.public_api_address.as_ref().unwrap();
    assert_eq!((api.ip, api.port), ([0, 0, 0, 0], API_PORT));
    assert!(matches!(config.api.allow_origin, Some(AllowOrigin::Any)));
    assert_eq!(config.genesis.validator_keys.len(), 1);
    assert_eq!(config.genesis.validator_keys[0].consensus_key, config.consensus_keypair.public_bytes());
    assert_eq!(config.genesis.validator_keys[0].service_key, config.service_keypair.public_bytes());
    assert_ne!(config.consensus_keypair.public_bytes(), config.service_keypair.public_bytes());
}

#[test]
fn node_config_with_given_keys() {
    let consensus = rfc_keypair();
    let mut secret = [0u8; 32];
    secret[0] = 7;
    let service = KeyPair::from_secret(secret);
    let (cp, sp) = (consensus.public_bytes(), service.public_bytes());
    let config = node_config_with(consensus, service);
    assert_eq!(config.consensus_keypair.public_bytes(), cp);
    assert_eq!(config.service_keypair.secret_bytes(), secret);
    assert_eq!(config.genesis.validator_keys[0].consensus_key, cp);
    assert_eq!(config.genesis.validator_keys[0].service_key, sp);
    assert_eq!(config.listen_address.port, PEER_PORT);
}
