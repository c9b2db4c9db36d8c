//! The exchange service on the node: what each transaction does to the
//! ledger, and the handling of raw signed messages.

use vstd::prelude::*;
use crate::crypto::{ed25519_accepts, sha256, sha256_digest};
use crate::exchange::{
    remove_first, is_first_index, lemma_first_index_unique, lemma_remove_first_of_push, Account,
    AccountView, Order, OrderView, TOKEN_BALANCE, USD_BALANCE,
};
use crate::hexstr::{decode_hex, hex_decode};
use crate::message::{Fill, Message, TxCancel, TxCreate, TxOrder};
use crate::protocol::{
    decode_error, is_service_message, lemma_encoded_message_decodes, lemma_raw_determines_message,
    read_array, tx_from_raw, DecodeError, SignedTransaction,
    Transaction, SERVICE_ID,
};
use crate::schema::{keys_match, ExchangeSchema, SchemaView};

verus! {

/// A new account of `owner`: the initial balances and no orders.
pub open spec fn initial_account(owner: Seq<u8>) -> AccountView {
    AccountView { owner, usd_balance: USD_BALANCE, token_balance: TOKEN_BALANCE, orders: seq![] }
}

/// What `TxCreate` does: opens an account for `owner` unless it has one.
pub open spec fn create_effect(v: SchemaView, owner: Seq<u8>) -> SchemaView {
    if v.accounts.contains_key(owner) {
        v
    } else {
        SchemaView { accounts: v.accounts.insert(owner, initial_account(owner)), orders: v.orders }
    }
}

/// What `TxOrder` does: when `owner` has an account and no order has
/// identifier `id`, stores the order and adds `id` to the account's orders.
pub open spec fn order_effect(v: SchemaView, owner: Seq<u8>, price: u32, amount: i32, id: u32) -> SchemaView {
    if v.accounts.contains_key(owner) && !v.orders.contains_key(id) {
        SchemaView {
            accounts: v.accounts.insert(
                owner,
                AccountView { orders: v.accounts[owner].orders.push(id), ..v.accounts[owner] },
            ),
            orders: v.orders.insert(id, OrderView { owner, price, amount, id }),
        }
    } else {
        v
    }
}

/// What `TxCancel` does: when `owner` has an account that lists order `id`
/// and the order is stored, removes the order and its first mention from the
/// account.
pub open spec fn cancel_effect(v: SchemaView, owner: Seq<u8>, id: u32) -> SchemaView {
    if v.accounts.contains_key(owner) && v.orders.contains_key(id) && v.accounts[owner].orders.contains(id) {
        SchemaView {
            accounts: v.accounts.insert(
                owner,
                AccountView { orders: remove_first(v.accounts[owner].orders, id), ..v.accounts[owner] },
            ),
            orders: v.orders.remove(id),
        }
    } else {
        v
    }
}

/// What a transaction does to the ledger.
pub open spec fn transaction_effect(v: SchemaView, t: Transaction) -> SchemaView {
    match t {
        Transaction::Create(x) => create_effect(v, x.owner@),
        Transaction::Order(x) => order_effect(v, x.owner@, x.price, x.amount, x.id),
        Transaction::Cancel(x) => cancel_effect(v, x.owner@, x.id),
    }
}

/// The books of the ledger agree: every order that an account lists is stored
/// and belongs to that account, every stored order is listed by its owner's
/// account, and no account lists an order twice.
pub open spec fn consistent(v: SchemaView) -> bool {
    &&& forall|k: Seq<u8>, j: int|
        #![trigger v.accounts[k].orders[j]]
        v.accounts.contains_key(k) && 0 <= j < v.accounts[k].orders.len() ==> {
            &&& v.orders.contains_key(v.accounts[k].orders[j])
            &&& v.orders[v.accounts[k].orders[j]].owner == k
        }
    &&& forall|id: u32|
        #[trigger] v.orders.contains_key(id) ==> {
            &&& v.accounts.contains_key(v.orders[id].owner)
            &&& v.accounts[v.orders[id].owner].orders.contains(id)
        }
    &&& forall|k: Seq<u8>| #[trigger] v.accounts.contains_key(k) ==> v.accounts[k].orders.no_duplicates()
}

/// Law: opening an account keeps the books consistent.
pub proof fn lemma_create_keeps_consistent(v: SchemaView, owner: Seq<u8>)
    requires
        keys_match(v),
        consistent(v),
    ensures
        keys_match(create_effect(v, owner)),
        consistent(create_effect(v, owner)),
{
    let w = create_effect(v, owner);
    if !v.accounts.contains_key(owner) {
        assert forall|id: u32| #[trigger] w.orders.contains_key(id) implies w.accounts.contains_key(w.orders[id].owner)
            && w.accounts[w.orders[id].owner].orders.contains(id) by {
            assert(v.accounts.contains_key(v.orders[id].owner));
        }
        assert forall|k: Seq<u8>| #[trigger] w.accounts.contains_key(k) implies w.accounts[k].orders.no_duplicates() by {
            if k != owner {
                assert(v.accounts.contains_key(k));
            }
        }
    }
}

/// Law: placing an order keeps the books consistent.
pub proof fn lemma_order_keeps_consistent(v: SchemaView, owner: Seq<u8>, price: u32, amount: i32, id: u32)
    requires
        keys_match(v),
        consistent(v),
    ensures
        keys_match(order_effect(v, owner, price, amount, id)),
        consistent(order_effect(v, owner, price, amount, id)),
{
    let w = order_effect(v, owner, price, amount, id);
    if v.accounts.contains_key(owner) && !v.orders.contains_key(id) {
        let old_list = v.accounts[owner].orders;
        let new_list = old_list.push(id);
        assert(!old_list.contains(id)) by {
            if old_list.contains(id) {
                let j = choose|j: int| 0 <= j < old_list.len() && old_list[j] == id;
                assert(v.orders.contains_key(v.accounts[owner].orders[j]));
            }
        }
        assert forall|k: Seq<u8>, j: int|
            #![trigger w.accounts[k].orders[j]]
            w.accounts.contains_key(k) && 0 <= j < w.accounts[k].orders.len() implies {
                &&& w.orders.contains_key(w.accounts[k].orders[j])
                &&& w.orders[w.accounts[k].orders[j]].owner == k
            } by {
            if k == owner {
                if j < old_list.len() {
                    assert(w.accounts[k].orders[j] == v.accounts[k].orders[j]);
                    assert(v.orders.contains_key(v.accounts[k].orders[j]));
                }
            } else {
                assert(w.accounts[k] == v.accounts[k]);
                assert(v.orders.contains_key(v.accounts[k].orders[j]));
            }
        }
        assert forall|id2: u32| #[trigger] w.orders.contains_key(id2) implies w.accounts.contains_key(w.orders[id2].owner)
            && w.accounts[w.orders[id2].owner].orders.contains(id2) by {
            if id2 == id {
                assert(new_list[old_list.len() as int] == id);
            } else {
                let k = v.orders[id2].owner;
                assert(v.accounts.contains_key(k));
                assert(v.accounts[k].orders.contains(id2));
                if k == owner {
                    let j = choose|j: int| 0 <= j < old_list.len() && old_list[j] == id2;
                    assert(new_list[j] == id2);
                }
            }
        }
        assert forall|k: Seq<u8>| #[trigger] w.accounts.contains_key(k) implies w.accounts[k].orders.no_duplicates() by {
            if k == owner {
                assert(old_list.no_duplicates());
                assert forall|a: int, b: int| 0 <= a < new_list.len() && 0 <= b < new_list.len() && a != b implies new_list[a]
                    != new_list[b] by {
                    if a < old_list.len() && b < old_list.len() {
                    } else if a == old_list.len() {
                        assert(old_list[b] == new_list[b]);
                    } else {
                        assert(old_list[a] == new_list[a]);
                    }
                }
            } else {
                assert(v.accounts.contains_key(k));
            }
        }
    }
}

/// The first position of `x` in a list holding it.
proof fn lemma_first_index_exists(s: Seq<u32>, x: u32) -> (i: int)
    requires
        s.contains(x),
    ensures
        is_first_index(s, x, i),
        remove_first(s, x) == s.remove(i),
    decreases s.len(),
{
    let j = choose|j: int| 0 <= j < s.len() && s[j] == x;
    if s[0] == x {
        assert(is_first_index(s, x, 0));
        let k = choose|k: int| is_first_index(s, x, k);
        lemma_first_index_unique(s, x, 0, k);
        0
    } else {
        let t = s.drop_first();
        assert(t[j - 1] == x);
        assert(t.contains(x));
        let i = lemma_first_index_exists(t, x);
        assert forall|m: int| 0 <= m < i + 1 implies s[m] != x by {
            if m > 0 {
                assert(s[m] == t[m - 1]);
            }
        }
        assert(is_first_index(s, x, i + 1));
        let k = choose|k: int| is_first_index(s, x, k);
        lemma_first_index_unique(s, x, i + 1, k);
        i + 1
    }
}

/// Law: removing the first occurrence of a listed identifier drops exactly
/// the earliest position that holds it and keeps every other element in
/// order; an unlisted identifier leaves the list as it was.
pub proof fn lemma_remove_first_drops_earliest(s: Seq<u32>, x: u32)
    ensures
        s.contains(x) ==> exists|i: int|
            0 <= i < s.len() && s[i] == x && (forall|j: int| 0 <= j < i ==> s[j] != x)
                && remove_first(s, x) == s.subrange(0, i) + s.subrange(i + 1, s.len() as int),
        s.contains(x) ==> remove_first(s, x).len() + 1 == s.len(),
        !s.contains(x) ==> remove_first(s, x) == s,
{
    if s.contains(x) {
        let i = lemma_first_index_exists(s, x);
        assert(s.remove(i) =~= s.subrange(0, i) + s.subrange(i + 1, s.len() as int));
    }
}

/// Law: cancelling an order keeps the books consistent.
pub proof fn lemma_cancel_keeps_consistent(v: SchemaView, owner: Seq<u8>, id: u32)
    requires
        keys_match(v),
        consistent(v),
    ensures
        keys_match(cancel_effect(v, owner, id)),
        consistent(cancel_effect(v, owner, id)),
{
    let w = cancel_effect(v, owner, id);
    if v.accounts.contains_key(owner) && v.orders.contains_key(id) && v.accounts[owner].orders.contains(id) {
        let old_list = v.accounts[owner].orders;
        let i = lemma_first_index_exists(old_list, id);
        let new_list = old_list.remove(i);
        assert(old_list.no_duplicates());
        assert forall|j: int| 0 <= j < new_list.len() implies #[trigger] new_list[j] == old_list[if j < i { j } else { j + 1 }] by {}
        assert(!new_list.contains(id)) by {
            if new_list.contains(id) {
                let j = choose|j: int| 0 <= j < new_list.len() && new_list[j] == id;
                let j2 = if j < i { j } else { j + 1 };
                assert(old_list[j2] == id && old_list[i] == id && j2 != i);
            }
        }
        assert forall|k: Seq<u8>, j: int|
            #![trigger w.accounts[k].orders[j]]
            w.accounts.contains_key(k) && 0 <= j < w.accounts[k].orders.len() implies {
                &&& w.orders.contains_key(w.accounts[k].orders[j])
                &&& w.orders[w.accounts[k].orders[j]].owner == k
            } by {
            if k == owner {
                let j2 = if j < i { j } else { j + 1 };
                assert(w.accounts[k].orders[j] == v.accounts[k].orders[j2]);
                assert(v.orders.contains_key(v.accounts[k].orders[j2]));
                assert(new_list[j] != id);
            } else {
                assert(w.accounts[k] == v.accounts[k]);
                assert(v.orders.contains_key(v.accounts[k].orders[j]));
                assert(v.orders[v.accounts[k].orders[j]].owner == k);
                if v.accounts[k].orders[j] == id {
                    assert(v.orders[id].owner == owner) by {
                        let m = choose|m: int| 0 <= m < old_list.len() && old_list[m] == id;
                        assert(v.orders.contains_key(v.accounts[owner].orders[m]));
                    }
                }
            }
        }
        assert forall|id2: u32| #[trigger] w.orders.contains_key(id2) implies w.accounts.contains_key(w.orders[id2].owner)
            && w.accounts[w.orders[id2].owner].orders.contains(id2) by {
            let k = v.orders[id2].owner;
            assert(v.accounts.contains_key(k));
            assert(v.accounts[k].orders.contains(id2));
            if k == owner {
                let j = choose|j: int| 0 <= j < old_list.len() && old_list[j] == id2;
                assert(j != i);
                let j2 = if j < i { j } else { j - 1 };
                assert(new_list[j2] == id2);
            }
        }
        assert forall|k: Seq<u8>| #[trigger] w.accounts.contains_key(k) implies w.accounts[k].orders.no_duplicates() by {
            if k == owner {
                assert forall|a: int, b: int| 0 <= a < new_list.len() && 0 <= b < new_list.len() && a != b implies new_list[a]
                    != new_list[b] by {
                    let a2 = if a < i { a } else { a + 1 };
                    let b2 = if b < i { b } else { b + 1 };
                    assert(new_list[a] == old_list[a2] && new_list[b] == old_list[b2]);
                }
            } else {
                assert(v.accounts.contains_key(k));
            }
        }
    }
}

/// Law: no transaction changes the balances of an account that existed
/// before it, and a new account starts with the initial balances.
pub proof fn lemma_balances_untouched(v: SchemaView, t: Transaction, k: Seq<u8>)
    requires
        transaction_effect(v, t).accounts.contains_key(k),
    ensures
        v.accounts.contains_key(k) ==> {
            &&& transaction_effect(v, t).accounts[k].usd_balance == v.accounts[k].usd_balance
            &&& transaction_effect(v, t).accounts[k].token_balance == v.accounts[k].token_balance
        },
        !v.accounts.contains_key(k) ==> transaction_effect(v, t).accounts[k] == initial_account(k),
{
}

/// Law: opening an account twice is opening it once.
pub proof fn lemma_create_idempotent(v: SchemaView, owner: Seq<u8>)
    ensures
        create_effect(create_effect(v, owner), owner) == create_effect(v, owner),
{
}

/// Law: on consistent books, cancelling an order that was just placed by an
/// account owner gives back the books as they were before the order.
pub proof fn lemma_cancel_undoes_order(v: SchemaView, owner: Seq<u8>, price: u32, amount: i32, id: u32)
    requires
        keys_match(v),
        consistent(v),
        v.accounts.contains_key(owner),
        !v.orders.contains_key(id),
    ensures
        cancel_effect(order_effect(v, owner, price, amount, id), owner, id) == v,
{
    let w = order_effect(v, owner, price, amount, id);
    let old_list = v.accounts[owner].orders;
    assert(!old_list.contains(id)) by {
        if old_list.contains(id) {
            let j = choose|j: int| 0 <= j < old_list.len() && old_list[j] == id;
            assert(v.orders.contains_key(v.accounts[owner].orders[j]));
        }
    }
    let new_list = old_list.push(id);
    assert(new_list[old_list.len() as int] == id);
    assert(w.accounts[owner].orders.contains(id));
    lemma_remove_first_of_push(old_list, id);
    let u = cancel_effect(w, owner, id);
    assert(u.accounts[owner] == v.accounts[owner]);
    assert(u.accounts =~= v.accounts);
    assert(u.orders =~= v.orders);
}

/// Law: a transaction to open an account always leaves its owner with an
/// account; an owner who had none gets one million dollar cents, one
/// thousand token units and no orders; every other account and every order is
/// untouched.
pub proof fn lemma_create_opens_account(v: SchemaView, owner: Seq<u8>, k: Seq<u8>, id: u32)
    ensures
        create_effect(v, owner).accounts.contains_key(owner),
        !v.accounts.contains_key(owner) ==> create_effect(v, owner).accounts[owner] == (AccountView {
            owner,
            usd_balance: 1_000_000,
            token_balance: 1_000,
            orders: Seq::<u32>::empty(),
        }),
        v.accounts.contains_key(owner) ==> create_effect(v, owner).accounts[owner] == v.accounts[owner],
        k != owner ==> create_effect(v, owner).accounts.contains_key(k) == v.accounts.contains_key(k)
            && create_effect(v, owner).accounts[k] == v.accounts[k],
        create_effect(v, owner).orders == v.orders,
{
}

/// Law: an order from an account owner with a free identifier is stored with
/// exactly the transaction's owner, price, amount (its sign included) and
/// identifier, and the identifier is appended to the owner's list; the
/// owner's balances, every other account and every other order are
/// untouched. Any other order changes nothing.
pub proof fn lemma_order_stores_order(v: SchemaView, owner: Seq<u8>, price: u32, amount: i32, id: u32, k: Seq<u8>, other: u32)
    ensures
        v.accounts.contains_key(owner) && !v.orders.contains_key(id) ==> {
            let w = order_effect(v, owner, price, amount, id);
            &&& w.orders.contains_key(id)
            &&& w.orders[id] == (OrderView { owner, price, amount, id })
            &&& w.accounts.contains_key(owner)
            &&& w.accounts[owner].orders == v.accounts[owner].orders.push(id)
            &&& w.accounts[owner].orders.contains(id)
            &&& w.accounts[owner].usd_balance == v.accounts[owner].usd_balance
            &&& w.accounts[owner].token_balance == v.accounts[owner].token_balance
            &&& w.accounts[owner].owner == v.accounts[owner].owner
            &&& (k != owner ==> w.accounts.contains_key(k) == v.accounts.contains_key(k) && w.accounts[k] == v.accounts[k])
            &&& (other != id ==> w.orders.contains_key(other) == v.orders.contains_key(other) && w.orders[other] == v.orders[other])
        },
        !(v.accounts.contains_key(owner) && !v.orders.contains_key(id)) ==> order_effect(v, owner, price, amount, id) == v,
{
    if v.accounts.contains_key(owner) && !v.orders.contains_key(id) {
        let w = order_effect(v, owner, price, amount, id);
        let n = v.accounts[owner].orders.len() as int;
        assert(w.accounts[owner].orders[n] == id);
    }
}

/// Law: on consistent books, when the owner's account lists order `id` and
/// the order is stored, cancelling removes the order from the book and its
/// one mention from the account, wherever it stands in the list; the
/// balances, every other account and every other order are untouched.
pub proof fn lemma_cancel_removes_order(v: SchemaView, owner: Seq<u8>, id: u32, k: Seq<u8>, other: u32)
    requires
        consistent(v),
        v.accounts.contains_key(owner),
        v.orders.contains_key(id),
        v.accounts[owner].orders.contains(id),
    ensures
        ({
            let w = cancel_effect(v, owner, id);
            &&& !w.orders.contains_key(id)
            &&& w.accounts.contains_key(owner)
            &&& !w.accounts[owner].orders.contains(id)
            &&& exists|i: int|
                0 <= i < v.accounts[owner].orders.len() && v.accounts[owner].orders[i] == id
                    && w.accounts[owner].orders == v.accounts[owner].orders.remove(i)
            &&& w.accounts[owner].usd_balance == v.accounts[owner].usd_balance
            &&& w.accounts[owner].token_balance == v.accounts[owner].token_balance
            &&& (k != owner ==> w.accounts.contains_key(k) == v.accounts.contains_key(k) && w.accounts[k] == v.accounts[k])
            &&& (other != id ==> w.orders.contains_key(other) == v.orders.contains_key(other) && w.orders[other] == v.orders[other])
        }),
{
    let w = cancel_effect(v, owner, id);
    let old_list = v.accounts[owner].orders;
    let i = lemma_first_index_exists(old_list, id);
    let new_list = old_list.remove(i);
    assert(w.accounts[owner].orders == new_list);
    assert(old_list.no_duplicates());
    assert(!new_list.contains(id)) by {
        if new_list.contains(id) {
            let j = choose|j: int| 0 <= j < new_list.len() && new_list[j] == id;
            let j2 = if j < i { j } else { j + 1 };
            assert(new_list[j] == old_list[j2]);
            assert(old_list[j2] == id && old_list[i] == id && j2 != i);
        }
    }
}

/// Law: the node executes each kind of transaction by what that kind does:
/// an account-opening leaves the owner with an account (new accounts at the
/// initial balances), an order from an account owner with a free identifier
/// is stored with the transaction's fields and listed, and on consistent
/// books a cancel of a listed, stored order removes it.
pub proof fn lemma_transaction_effect_by_kind(v: SchemaView, t: Transaction)
    ensures
        t matches Transaction::Create(x) ==> {
            &&& transaction_effect(v, t).accounts.contains_key(x.owner@)
            &&& !v.accounts.contains_key(x.owner@) ==> transaction_effect(v, t).accounts[x.owner@] == (AccountView {
                owner: x.owner@,
                usd_balance: 1_000_000,
                token_balance: 1_000,
                orders: Seq::<u32>::empty(),
            })
        },
        t matches Transaction::Order(x) ==> (v.accounts.contains_key(x.owner@) && !v.orders.contains_key(x.id) ==> {
            &&& transaction_effect(v, t).orders.contains_key(x.id)
            &&& transaction_effect(v, t).orders[x.id] == (OrderView { owner: x.owner@, price: x.price, amount: x.amount, id: x.id })
            &&& transaction_effect(v, t).accounts[x.owner@].orders.contains(x.id)
        }),
        t matches Transaction::Cancel(x) ==> (consistent(v) && v.accounts.contains_key(x.owner@) && v.orders.contains_key(x.id)
            && v.accounts[x.owner@].orders.contains(x.id) ==> {
            &&& !transaction_effect(v, t).orders.contains_key(x.id)
            &&& !transaction_effect(v, t).accounts[x.owner@].orders.contains(x.id)
        }),
{
    match t {
        Transaction::Create(x) => {
            lemma_create_opens_account(v, x.owner@, x.owner@, 0);
        },
        Transaction::Order(x) => {
            lemma_order_stores_order(v, x.owner@, x.price, x.amount, x.id, x.owner@, x.id);
        },
        Transaction::Cancel(x) => {
            if consistent(v) && v.accounts.contains_key(x.owner@) && v.orders.contains_key(x.id)
                && v.accounts[x.owner@].orders.contains(x.id) {
                lemma_cancel_removes_order(v, x.owner@, x.id, x.owner@, x.id);
            }
        },
    }
}

impl TxCreate {
    /// Opens an account with the initial balances for the owner, unless the
    /// owner already has one.
    pub fn execute(&self, schema: &mut ExchangeSchema)
        ensures
            final(schema)@ == create_effect(old(schema)@, self.owner@),
    {
        if schema.account(&self.owner).is_none() {
            let account = Account::new(&self.owner, USD_BALANCE, TOKEN_BALANCE, Vec::new());
            schema.put_account(account);
        }
    }
}

impl TxOrder {
    /// Places the order: when the owner has an account and the identifier is
    /// free, stores the order and adds its identifier to the account.
    pub fn execute(&self, schema: &mut ExchangeSchema)
        ensures
            final(schema)@ == order_effect(old(schema)@, self.owner@, self.price, self.amount, self.id),
    {
        proof {
            schema.lemma_keys_match();
        }
        let account = schema.account(&self.owner);
        if let Some(account) = account {
            let not_exists = !schema.contains_order(self.id);
            if not_exists {
                let order = Order::new(&self.owner, self.price, self.amount, self.id);
                let account = account.add_order_id(self.id);
                schema.put_order(order);
                schema.put_account(account);
            }
        }
    }
}

impl TxCancel {
    /// Cancels the order: when the owner's account lists the identifier and
    /// the order is stored, removes the order and its first mention from the
    /// account.
    pub fn execute(&self, schema: &mut ExchangeSchema)
        ensures
            final(schema)@ == cancel_effect(old(schema)@, self.owner@, self.id),
    {
        proof {
            schema.lemma_keys_match();
        }
        let account = schema.account(&self.owner);
        if let Some(account) = account {
            let exists = schema.contains_order(self.id);
            if exists {
                if let Some(account) = account.remove_order_by_id(self.id) {
                    schema.remove_order(self.id);
                    schema.put_account(account);
                }
            }
        }
    }
}

impl Transaction {
    /// Executes the transaction on the ledger.
    pub fn execute(&self, schema: &mut ExchangeSchema)
        ensures
            final(schema)@ == transaction_effect(old(schema)@, *self),
    {
        match self {
            Transaction::Create(t) => t.execute(schema),
            Transaction::Order(t) => t.execute(schema),
            Transaction::Cancel(t) => t.execute(schema),
        }
    }
}

/// The owner key of a raw message accepts its signature over the rest of the
/// message.
pub open spec fn raw_signed_by_owner(raw: Seq<u8>) -> bool {
    ed25519_accepts(raw.subrange(10, 42), raw.subrange(0, raw.len() - 64), raw.subrange(raw.len() - 64, raw.len() as int))
}

/// Why the node refuses a raw message.
#[derive(Debug, PartialEq, Eq)]
pub enum Rejection {
    /// The message does not decode.
    Malformed(DecodeError),
    /// The signature is not the owner's.
    BadSignature,
}

/// Why an account key given in hexadecimal is refused.
#[derive(Debug, PartialEq, Eq)]
pub enum KeyError {
    /// The text is not hexadecimal.
    InvalidHex,
    /// The text does not denote 32 bytes.
    InvalidLength { length: usize },
}

/// The exchange service of the node.
pub struct ExchangeService;

impl ExchangeService {
    /// The service's name.
    pub fn service_name(&self) -> (r: &'static str)
        ensures
            r@ == "cryptoexchange"@,
    {
        "cryptoexchange"
    }

    /// The service's identifier.
    pub fn service_id(&self) -> (r: u16)
        ensures
            r == SERVICE_ID,
    {
        SERVICE_ID
    }

    /// Decodes a raw message of the service.
    pub fn tx_from_raw(&self, raw: &[u8]) -> (r: Result<SignedTransaction, DecodeError>)
        ensures
            match r {
                Ok(t) => {
                    &&& decode_error(raw@) is None
                    &&& is_service_message(t.message)
                    &&& raw@ == t.message.encoding() + t.signature@
                },
                Err(e) => decode_error(raw@) == Some(e),
            },
    {
        tx_from_raw(raw)
    }

    /// The hash that identifies a raw transaction: the SHA-256 digest of its
    /// bytes.
    pub fn transaction_hash(&self, raw: &[u8]) -> (r: [u8; 32])
        ensures
            r@ == sha256(raw@),
    {
        sha256_digest(raw)
    }

    /// The service keeps no state hashes.
    pub fn state_hash(&self) -> (r: Vec<[u8; 32]>)
        ensures
            r@.len() == 0,
    {
        Vec::new()
    }

    /// Handles a raw message: decodes it, checks the owner's signature, and
    /// executes the transaction; a refused message leaves the ledger as it
    /// was.
    pub fn handle_raw(&self, schema: &mut ExchangeSchema, raw: &[u8]) -> (r: Result<SignedTransaction, Rejection>)
        ensures
            match r {
                Err(Rejection::Malformed(e)) => decode_error(raw@) == Some(e) && final(schema)@ == old(schema)@,
                Err(Rejection::BadSignature) => {
                    &&& decode_error(raw@) is None
                    &&& !raw_signed_by_owner(raw@)
                    &&& final(schema)@ == old(schema)@
                },
                Ok(t) => {
                    &&& decode_error(raw@) is None
                    &&& raw_signed_by_owner(raw@)
                    &&& is_service_message(t.message)
                    &&& raw@ == t.message.encoding() + t.signature@
                    &&& final(schema)@ == transaction_effect(old(schema)@, t.message.body)
                },
            },
    {
        match tx_from_raw(raw) {
            Err(e) => Err(Rejection::Malformed(e)),
            Ok(t) => {
                proof {
                    lemma_signed_parts(t, raw@);
                }
                if t.verify() {
                    t.message.body.execute(schema);
                    Ok(t)
                } else {
                    Err(Rejection::BadSignature)
                }
            },
        }
    }
}

/// The owner key, the signed bytes and the signature of a decoded message are
/// where `raw_signed_by_owner` reads them.
proof fn lemma_signed_parts(t: SignedTransaction, raw: Seq<u8>)
    requires
        is_service_message(t.message),
        raw == t.message.encoding() + t.signature@,
    ensures
        raw_signed_by_owner(raw) == ed25519_accepts(t.message.body.owner()@, t.message.encoding(), t.signature@),
{
    let n = raw.len() as int;
    let e = t.message.encoding();
    assert(e.len() == n - 64);
    assert(raw.subrange(0, n - 64) =~= e);
    assert(raw.subrange(n - 64, n) =~= t.signature@);
    assert(raw.subrange(10, 42) =~= t.message.body.owner()@);
}

impl ExchangeSchema {
    /// The account whose owner key is given in hexadecimal, if there is one.
    pub fn account_by_hex(&self, key: &str) -> (r: Result<Option<Account>, KeyError>)
        ensures
            hex_decode(key@) is None ==> r == Err::<Option<Account>, KeyError>(KeyError::InvalidHex),
            hex_decode(key@) matches Some(b) ==> {
                if b.len() != 32 {
                    r == Err::<Option<Account>, KeyError>(KeyError::InvalidLength { length: b.len() as usize })
                } else {
                    &&& r matches Ok(found)
                    &&& found is Some <==> self@.accounts.contains_key(b)
                    &&& found matches Some(a) ==> a@ == self@.accounts[b]
                }
            },
    {
        match decode_hex(key) {
            Err(_) => Err(KeyError::InvalidHex),
            Ok(bytes) => {
                if bytes.len() != 32 {
                    Err(KeyError::InvalidLength { length: bytes.len() })
                } else {
                    let owner: [u8; 32] = read_array(bytes.as_slice(), 0);
                    proof {
                        assert(owner@ =~= bytes@);
                    }
                    Ok(self.account(&owner))
                }
            },
        }
    }
}

/// Law: a message of the service whose signature is accepted under its
/// owner's key decodes, passes the signature check, and is executed as the
/// transaction it carries.
pub proof fn lemma_owner_signed_message_accepted(m: Message<Transaction>, signature: [u8; 64], t: SignedTransaction)
    requires
        is_service_message(m),
        ed25519_accepts(m.body.owner()@, m.encoding(), signature@),
        is_service_message(t.message),
        m.encoding() + signature@ == t.message.encoding() + t.signature@,
    ensures
        decode_error(m.encoding() + signature@) is None,
        raw_signed_by_owner(m.encoding() + signature@),
        t.message == m,
        t.signature == signature,
{
    lemma_encoded_message_decodes(m, signature);
    lemma_raw_determines_message(m, signature, t.message, t.signature);
    lemma_signed_parts(t, m.encoding() + signature@);
}

} // verus!
