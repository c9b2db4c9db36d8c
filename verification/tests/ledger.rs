use cryptoexchange::crypto::KeyPair;
use cryptoexchange::exchange::{Account, Order, TOKEN_BALANCE, USD_BALANCE};
use cryptoexchange::message::{Message, TxCancel, TxCreate, TxOrder};
use cryptoexchange::node::{ExchangeService, KeyError, Rejection};
use cryptoexchange::protocol::{DecodeError, Transaction, SERVICE_ID, TX_CANCEL, TX_CREATE, TX_ORDER};
use cryptoexchange::schema::ExchangeSchema;

fn create(owner: [u8; 32]) -> TxCreate {
    TxCreate { owner }
}

fn order(owner: [u8; 32], id: u32) -> TxOrder {
    TxOrder { owner, price: 100, amount: 5, id }
}

#[test]
fn create_opens_account_with_initial_balances() {
    let mut s = ExchangeSchema::new();
    let owner = [1u8; 32];
    assert!(s.account(&owner).is_none());
    create(owner).execute(&mut s);
    let a = s.account(&owner).unwrap();
    assert_eq!(a.owner, owner);
    assert_eq!(a.usd_balance, USD_BALANCE);
    assert_eq!(a.token_balance, TOKEN_BALANCE);
    assert!(a.orders.is_empty());
}

#[test]
fn create_twice_keeps_the_first_account() {
    let mut s = ExchangeSchema::new();
    let owner = [1u8; 32];
    create(owner).execute(&mut s);
    order(owner, 3).execute(&mut s);
    create(owner).execute(&mut s);
    assert_eq!(s.account(&owner).unwrap().orders, vec![3]);
    assert_eq!(s.accounts().len(), 1);
}

#[test]
fn order_needs_an_account_and_a_free_id() {
    let mut s = ExchangeSchema::new();
    let alice = [1u8; 32];
    let bob = [2u8; 32];
    order(alice, 1).execute(&mut s);
    assert!(!s.contains_order(1));
    create(alice).execute(&mut s);
    create(bob).execute(&mut s);
    order(alice, 1).execute(&mut s);
    let o = s.order(1).unwrap();
    assert_eq!((o.owner, o.price, o.amount, o.id), (alice, 100, 5, 1));
    // the identifier is taken
    TxOrder { owner: bob, price: 7, amount: -1, id: 1 }.execute(&mut s);
    assert_eq!(s.order(1).unwrap().owner, alice);
    assert!(s.account(&bob).unwrap().orders.is_empty());
    assert_eq!(s.account(&alice).unwrap().orders, vec![1]);
    // balances are not touched by orders
    assert_eq!(s.account(&alice).unwrap().usd_balance, USD_BALANCE);
}

#[test]
fn cancel_undoes_order() {
    let mut s = ExchangeSchema::new();
    let alice = [1u8; 32];
    create(alice).execute(&mut s);
    order(alice, 4).execute(&mut s);
    order(alice, 5).execute(&mut s);
    TxCancel { owner: alice, id: 4 }.execute(&mut s);
    assert!(!s.contains_order(4));
    assert!(s.contains_order(5));
    assert_eq!(s.account(&alice).unwrap().orders, vec![5]);
}

#[test]
fn cancel_by_another_account_does_nothing() {
    let mut s = ExchangeSchema::new();
    let alice = [1u8; 32];
    let bob = [2u8; 32];
    create(alice).execute(&mut s);
    create(bob).execute(&mut s);
    order(alice, 4).execute(&mut s);
    TxCancel { owner: bob, id: 4 }.execute(&mut s);
    assert!(s.contains_order(4));
    assert_eq!(s.account(&alice).unwrap().orders, vec![4]);
    TxCancel { owner: alice, id: 8 }.execute(&mut s);
    assert_eq!(s.orders().len(), 1);
}

#[test]
fn transaction_dispatch() {
    let mut s = ExchangeSchema::new();
    let alice = [1u8; 32];
    Transaction::Create(create(alice)).execute(&mut s);
    Transaction::Order(order(alice, 2)).execute(&mut s);
    assert!(s.contains_order(2));
    Transaction::Cancel(TxCancel { owner: alice, id: 2 }).execute(&mut s);
    assert!(!s.contains_order(2));
}

#[test]
fn put_and_remove_in_the_store() {
    let mut s = ExchangeSchema::new();
    let a = Account::new(&[7u8; 32], 1, 2, vec![3]);
    s.put_account(a);
    s.put_account(Account::new(&[7u8; 32], 10, 20, vec![]));
    assert_eq!(s.accounts().len(), 1);
    assert_eq!(s.account(&[7u8; 32]).unwrap().usd_balance, 10);
    s.put_order(Order::new(&[7u8; 32], 1, 1, 1));
    s.put_order(Order::new(&[7u8; 32], 2, 2, 2));
    s.put_order(Order::new(&[7u8; 32], 9, 9, 1));
    let ids: Vec<u32> = s.orders().iter().map(|o| o.id).collect();
    assert_eq!(ids, vec![1, 2]);
    s.put_order(Order::new(&[7u8; 32], 0, 0, 0));
    s.put_order(Order::new(&[7u8; 32], 5, 5, 5));
    let ids: Vec<u32> = s.orders().iter().map(|o| o.id).collect();
    assert_eq!(ids, vec![0, 1, 2, 5]);
    s.remove_order(0);
    s.remove_order(5);
    assert_eq!(s.order(1).unwrap().price, 9);
    s.remove_order(1);
    s.remove_order(42);
    assert!(s.order(1).is_none());
    assert_eq!(s.orders().len(), 1);
}

#[test]
fn buy_and_sell_tokens() {
    let a = Account::new(&[1u8; 32], 1000, 10, vec![]);
    let b = a.buy_tokens(30, 4, 1);
    assert_eq!((b.usd_balance, b.token_balance, b.orders.clone()), (880, 14, vec![1]));
    let c = b.sell_tokens(30, 4, 2);
    assert_eq!((c.usd_balance, c.token_balance, c.orders.clone()), (1000, 10, vec![1, 2]));
}

#[test]
fn buy_with_negative_amount_wraps_like_casts() {
    // (price as i32 * amount) as u32 with amount -1 is 2^32 - price, which the
    // balance cannot cover in a real account; use sell to see the wrap
    let a = Account::new(&[1u8; 32], 100, 10, vec![]);
    let b = a.sell_tokens(3, 2, 9);
    assert_eq!((b.usd_balance, b.token_balance), (106, 8));
}

#[test]
fn add_and_remove_order_ids() {
    let a = Account::new(&[1u8; 32], 0, 0, vec![5, 6, 5]);
    assert_eq!(a.add_order_id(7).orders, vec![5, 6, 5, 7]);
    assert_eq!(a.remove_order_by_id(5).unwrap().orders, vec![6, 5]);
    assert!(a.remove_order_by_id(8).is_none());
    assert_eq!(a.duplicate().orders, vec![5, 6, 5]);
}

#[test]
fn account_by_hex_key() {
    let mut s = ExchangeSchema::new();
    let owner = [0xabu8; 32];
    create(owner).execute(&mut s);
    let key = "ab".repeat(32);
    assert_eq!(s.account_by_hex(&key).unwrap().unwrap().owner, owner);
    assert_eq!(s.account_by_hex(&key.to_uppercase()).unwrap().unwrap().owner, owner);
    assert!(s.account_by_hex(&"cd".repeat(32)).unwrap().is_none());
    assert_eq!(s.account_by_hex("zz").err().unwrap(), KeyError::InvalidHex);
    assert_eq!(s.account_by_hex("abc").err().unwrap(), KeyError::InvalidHex);
    assert_eq!(s.account_by_hex("abcd").err().unwrap(), KeyError::InvalidLength { length: 2 });
}

#[test]
fn service_identity() {
    let service = ExchangeService;
    assert_eq!(service.service_name(), "cryptoexchange");
    assert_eq!(service.service_id(), 1);
    assert!(service.state_hash().is_empty());
}

#[test]
fn node_applies_signed_transactions() {
    let service = ExchangeService;
    let mut s = ExchangeSchema::new();
    let kp = KeyPair::generate();
    let owner = kp.public_bytes();
    let m = Message { network_id: 0, protocol_version: 0, service_id: SERVICE_ID, message_id: TX_CREATE, body: Transaction::Create(TxCreate { owner }) };
    let sig = m.to_exonum(&kp).signature;
    assert!(service.handle_raw(&mut s, &m.to_raw(&sig)).is_ok());
    assert!(s.account(&owner).is_some());
    let m = Message { network_id: 0, protocol_version: 0, service_id: SERVICE_ID, message_id: TX_ORDER, body: Transaction::Order(order(owner, 11)) };
    let sig = m.to_exonum(&kp).signature;
    assert!(service.handle_raw(&mut s, &m.to_raw(&sig)).is_ok());
    assert!(s.contains_order(11));
    let m = Message { network_id: 0, protocol_version: 0, service_id: SERVICE_ID, message_id: TX_CANCEL, body: Transaction::Cancel(TxCancel { owner, id: 11 }) };
    let sig = m.to_exonum(&kp).signature;
    assert!(service.handle_raw(&mut s, &m.to_raw(&sig)).is_ok());
    assert!(!s.contains_order(11));
}

#[test]
fn node_refuses_bad_signature_and_malformed_messages() {
    let service = ExchangeService;
    let mut s = ExchangeSchema::new();
    let kp = KeyPair::generate();
    let other = KeyPair::generate();
    let owner = kp.public_bytes();
    let m = Message { network_id: 0, protocol_version: 0, service_id: SERVICE_ID, message_id: TX_CREATE, body: Transaction::Create(TxCreate { owner }) };
    let sig = m.to_exonum(&other).signature;
    assert_eq!(service.handle_raw(&mut s, &m.to_raw(&sig)).err().unwrap(), Rejection::BadSignature);
    assert!(s.account(&owner).is_none());
    assert_eq!(
        service.handle_raw(&mut s, &[1, 2, 3]).err().unwrap(),
        Rejection::Malformed(DecodeError::UnexpectedlyShortPayload { actual_size: 3, minimum_size: 74 })
    );
    assert!(s.accounts().is_empty());
}

#[test]
fn decoded_service_message_through_service() {
    let service = ExchangeService;
    let m = Message { network_id: 0, protocol_version: 0, service_id: SERVICE_ID, message_id: TX_CREATE, body: TxCreate { owner: [5u8; 32] } };
    let t = service.tx_from_raw(&m.to_raw(&[0u8; 64])).ok().unwrap();
    assert_eq!(t.message.body.owner_key(), [5u8; 32]);
}

#[test]
fn books_agree_after_a_session() {
    let mut s = ExchangeSchema::new();
    let alice = [1u8; 32];
    let bob = [2u8; 32];
    create(alice).execute(&mut s);
    create(bob).execute(&mut s);
    order(alice, 1).execute(&mut s);
    order(bob, 2).execute(&mut s);
    order(alice, 3).execute(&mut s);
    order(bob, 1).execute(&mut s);
    TxCancel { owner: alice, id: 1 }.execute(&mut s);
    TxCancel { owner: bob, id: 3 }.execute(&mut s);
    // every listed order is stored and belongs to the lister
    for a in s.accounts() {
        for id in &a.orders {
            assert_eq!(s.order(*id).unwrap().owner, a.owner);
        }
    }
    // every stored order is listed once by its owner
    for o in s.orders() {
        let listed = s.account(&o.owner).unwrap().orders;
        assert_eq!(listed.iter().filter(|x| **x == o.id).count(), 1);
    }
    let mut ids: Vec<u32> = s.orders().iter().map(|o| o.id).collect();
    ids.sort();
    assert_eq!(ids, vec![2, 3]);
}
