//! The browser client: its key pair and the signed requests it sends, and the
//! decisions of its page.

use std::collections::BTreeMap;
use vstd::prelude::*;
use crate::crypto::{ed25519_accepts, ed25519_signature, KeyPair};
use crate::hexstr::{encode_hex, hex_encode};
use crate::message::{Envelope, Fill, Message, TxCancel, TxCreate, TxOrder};
use crate::protocol::{SERVICE_ID, TX_CANCEL, TX_CREATE, TX_ORDER};

verus! {

/// A message and what is sent along with it.
pub struct SignedRequest<T> {
    pub message: Message<T>,
    pub envelope: Envelope,
}

/// `m` is a client message of type `message_id`: network 0, protocol
/// version 0, and the exchange service.
pub open spec fn is_client_message<T>(m: Message<T>, message_id: u16) -> bool {
    &&& m.network_id == 0
    &&& m.protocol_version == 0
    &&& m.service_id == SERVICE_ID
    &&& m.message_id == message_id
}

/// `r` carries the signature of its encoded message under `keypair`.
pub open spec fn signed_with<T: Fill>(r: SignedRequest<T>, keypair: KeyPair) -> bool {
    &&& r.envelope.size == r.message.body.encoding().len()
    &&& r.envelope.signature@ == ed25519_signature(keypair.secret_key(), r.message.encoding())
    &&& ed25519_accepts(keypair.public_key(), r.message.encoding(), r.envelope.signature@)
    &&& r.envelope.signature_hex@ == hex_encode(r.envelope.signature@)
}

/// The client's link to the exchange: the key pair of its account, once it
/// has one.
pub struct ExonumService {
    keypair: Option<KeyPair>,
}

impl ExonumService {
    /// The key pair of the client's account, if it has one.
    pub closed spec fn key_pair(self) -> Option<KeyPair> {
        self.keypair
    }

    /// A client without an account.
    pub fn new() -> (r: ExonumService)
        ensures
            r.key_pair() is None,
    {
        ExonumService { keypair: None }
    }

    /// Takes `keypair` as the account's key pair and returns the signed
    /// request that opens the account.
    pub fn create_account_with(&mut self, keypair: KeyPair) -> (r: SignedRequest<TxCreate>)
        ensures
            final(self).key_pair() == Some(keypair),
            is_client_message(r.message, TX_CREATE),
            r.message.body.owner@ == keypair.public_key(),
            signed_with(r, keypair),
    {
        let message = Message {
            network_id: 0,
            protocol_version: 0,
            service_id: SERVICE_ID,
            message_id: TX_CREATE,
            body: TxCreate { owner: keypair.public_bytes() },
        };
        let envelope = message.to_exonum(&keypair);
        self.keypair = Some(keypair);
        SignedRequest { message, envelope }
    }

    /// Makes a new random key pair for the account and returns the signed
    /// request that opens it.
    pub fn create_account(&mut self) -> (r: SignedRequest<TxCreate>)
        ensures
            final(self).key_pair() matches Some(kp) && {
                &&& is_client_message(r.message, TX_CREATE)
                &&& r.message.body.owner@ == kp.public_key()
                &&& signed_with(r, kp)
            },
    {
        let keypair = KeyPair::generate();
        self.create_account_with(keypair)
    }

    /// The account's public key in hexadecimal; the client must have an
    /// account.
    pub fn get_owner(&mut self) -> (r: String)
        requires
            old(self).key_pair() is Some,
        ensures
            r@ == hex_encode(old(self).key_pair().unwrap().public_key()),
            *final(self) == *old(self),
    {
        match &self.keypair {
            Some(kp) => {
                let public = kp.public_bytes();
                encode_hex(public.as_slice())
            },
            None => {
                proof {
                    assert(false);
                }
                String::new()
            },
        }
    }

    /// Leaves the client as it is.
    pub fn order_transaction(&mut self)
        ensures
            *final(self) == *old(self),
    {
    }

    /// The signed request that places order `id` of `amount` tokens at
    /// `price`, or `None` when the client has no account.
    pub fn put_order(&self, price: u32, amount: i32, id: u32) -> (r: Option<SignedRequest<TxOrder>>)
        ensures
            r is Some <==> self.key_pair() is Some,
            r matches Some(req) ==> {
                &&& is_client_message(req.message, TX_ORDER)
                &&& req.message.body.owner@ == self.key_pair().unwrap().public_key()
                &&& req.message.body.price == price
                &&& req.message.body.amount == amount
                &&& req.message.body.id == id
                &&& signed_with(req, self.key_pair().unwrap())
            },
    {
        match &self.keypair {
            Some(kp) => {
                let message = Message {
                    network_id: 0,
                    protocol_version: 0,
                    service_id: SERVICE_ID,
                    message_id: TX_ORDER,
                    body: TxOrder { owner: kp.public_bytes(), price, amount, id },
                };
                proof {
                    crate::le::lemma_u32_roundtrip(price);
                    crate::le::lemma_i32_roundtrip(amount);
                    crate::le::lemma_u32_roundtrip(id);
                }
                let envelope = message.to_exonum(kp);
                Some(SignedRequest { message, envelope })
            },
            None => None,
        }
    }

    /// The signed request that cancels order `id`, or `None` when the client
    /// has no account.
    pub fn cancel_order(&self, id: u32) -> (r: Option<SignedRequest<TxCancel>>)
        ensures
            r is Some <==> self.key_pair() is Some,
            r matches Some(req) ==> {
                &&& is_client_message(req.message, TX_CANCEL)
                &&& req.message.body.owner@ == self.key_pair().unwrap().public_key()
                &&& req.message.body.id == id
                &&& signed_with(req, self.key_pair().unwrap())
            },
    {
        match &self.keypair {
            Some(kp) => {
                let message = Message {
                    network_id: 0,
                    protocol_version: 0,
                    service_id: SERVICE_ID,
                    message_id: TX_CANCEL,
                    body: TxCancel { owner: kp.public_bytes(), id },
                };
                proof {
                    crate::le::lemma_u32_roundtrip(id);
                }
                let envelope = message.to_exonum(kp);
                Some(SignedRequest { message, envelope })
            },
            None => None,
        }
    }
}

/// The outcome of fetching a resource: the decoded data (or the message of
/// its decoding error) when the response succeeded, otherwise a fetch error.
pub fn fetch_result<T>(success: bool, data: Result<T, String>) -> (r: Result<T, String>)
    ensures
        success ==> r == data,
        !success ==> (r matches Err(m) && m@ == "fetch error..."@),
{
    if success {
        data
    } else {
        Err(String::from_str("fetch error..."))
    }
}

/// An account as the node reports it.
pub struct Account {
    pub owner: String,
    pub usd_balance: u32,
    pub token_balance: u32,
    pub orders: Vec<u32>,
}

/// An order as the node reports it.
pub struct Order {
    pub owner: String,
    pub price: u32,
    pub amount: i32,
    pub id: u32,
}

/// The node's orders, by identifier.
pub type OrderBook = BTreeMap<u32, Order>;

/// What the page has loaded.
pub struct Model {
    pub account: Option<Account>,
    pub order_book: Option<OrderBook>,
}

/// The events of the page.
pub enum Msg {
    Account(Result<Account, String>),
    OrderBook(Result<OrderBook, String>),
    Increment,
    Decrement,
    Bulk(Vec<Msg>),
    NeedUpdate(()),
    PutOrder,
    Cancel(u32),
}

/// What the page asks of its environment after an event.
#[derive(Debug, PartialEq, Eq)]
pub enum Command {
    /// Nothing.
    Nothing,
    /// Fetch the account and the order book again.
    FetchUpdates,
    /// Send a new order.
    PutOrder,
    /// Cancel the order with this identifier.
    CancelOrder(u32),
}

impl Model {
    /// A page with nothing loaded.
    pub fn new() -> (r: Model)
        ensures
            r.account is None,
            r.order_book is None,
    {
        Model { account: None, order_book: None }
    }

    /// Handles an event: a loaded account or order book replaces the one
    /// shown (a failed load changes nothing); a timer tick asks for fresh
    /// data; the buttons ask to place or cancel an order. The page is always
    /// drawn again.
    pub fn update(&mut self, msg: Msg) -> (r: (bool, Command))
        ensures
            r.0,
            match msg {
                Msg::Account(Ok(a)) => final(self).account == Some(a) && final(self).order_book
                    == old(self).order_book && r.1 == Command::Nothing,
                Msg::OrderBook(Ok(b)) => final(self).order_book == Some(b) && final(self).account
                    == old(self).account && r.1 == Command::Nothing,
                Msg::NeedUpdate(_) => *final(self) == *old(self) && r.1 == Command::FetchUpdates,
                Msg::PutOrder => *final(self) == *old(self) && r.1 == Command::PutOrder,
                Msg::Cancel(id) => *final(self) == *old(self) && r.1 == Command::CancelOrder(id),
                _ => *final(self) == *old(self) && r.1 == Command::Nothing,
            },
    {
        match msg {
            Msg::Account(account) => {
                if let Ok(account) = account {
                    self.account = Some(account);
                }
                (true, Command::Nothing)
            },
            Msg::OrderBook(order_book) => {
                if let Ok(order_book) = order_book {
                    self.order_book = Some(order_book);
                }
                (true, Command::Nothing)
            },
            Msg::NeedUpdate(_) => (true, Command::FetchUpdates),
            Msg::PutOrder => (true, Command::PutOrder),
            Msg::Cancel(id) => (true, Command::CancelOrder(id)),
            _ => (true, Command::Nothing),
        }
    }
}

} // verus!
