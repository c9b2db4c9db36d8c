//! The storage of the exchange node: accounts keyed by owner and orders keyed
//! by identifier.

use vstd::prelude::*;
use crate::exchange::{Account, AccountView, Order, OrderView};

verus! {

/// The stored state as mathematical maps.
pub struct SchemaView {
    pub accounts: Map<Seq<u8>, AccountView>,
    pub orders: Map<u32, OrderView>,
}

/// Some account of `s` belongs to `k`.
pub open spec fn has_owner(s: Seq<Account>, k: Seq<u8>) -> bool {
    exists|i: int| 0 <= i < s.len() && (#[trigger] s[i]).owner@ == k
}

/// The position of an account of `k` in `s`.
pub open spec fn owner_index(s: Seq<Account>, k: Seq<u8>) -> int {
    choose|i: int| 0 <= i < s.len() && (#[trigger] s[i]).owner@ == k
}

/// The accounts of `s` keyed by owner.
pub open spec fn accounts_map(s: Seq<Account>) -> Map<Seq<u8>, AccountView> {
    Map::new(|k: Seq<u8>| has_owner(s, k), |k: Seq<u8>| s[owner_index(s, k)]@)
}

/// Some order of `s` has identifier `id`.
pub open spec fn has_id(s: Seq<Order>, id: u32) -> bool {
    exists|i: int| 0 <= i < s.len() && (#[trigger] s[i]).id == id
}

/// The position of an order with identifier `id` in `s`.
pub open spec fn id_index(s: Seq<Order>, id: u32) -> int {
    choose|i: int| 0 <= i < s.len() && (#[trigger] s[i]).id == id
}

/// The orders of `s` keyed by identifier.
pub open spec fn orders_map(s: Seq<Order>) -> Map<u32, OrderView> {
    Map::new(|id: u32| has_id(s, id), |id: u32| s[id_index(s, id)]@)
}

/// No two accounts of `s` have the same owner.
pub open spec fn owners_distinct(s: Seq<Account>) -> bool {
    forall|i: int, j: int|
        0 <= i < s.len() && 0 <= j < s.len() && i != j ==> (#[trigger] s[i]).owner@ != (#[trigger] s[j]).owner@
}

/// No two orders of `s` have the same identifier.
pub open spec fn ids_distinct(s: Seq<Order>) -> bool {
    forall|i: int, j: int|
        0 <= i < s.len() && 0 <= j < s.len() && i != j ==> (#[trigger] s[i]).id != (#[trigger] s[j]).id
}

/// The orders of `s` are in strictly increasing order of identifier.
pub open spec fn ids_increasing(s: Seq<Order>) -> bool {
    forall|i: int, j: int| 0 <= i < j < s.len() ==> (#[trigger] s[i]).id < (#[trigger] s[j]).id
}

proof fn lemma_increasing_distinct(s: Seq<Order>)
    requires
        ids_increasing(s),
    ensures
        ids_distinct(s),
{
    assert forall|i: int, j: int|
        0 <= i < s.len() && 0 <= j < s.len() && i != j implies (#[trigger] s[i]).id != (#[trigger] s[j]).id by {
        if i < j {
            assert(s[i].id < s[j].id);
        } else {
            assert(s[j].id < s[i].id);
        }
    }
}

proof fn lemma_owner_index(s: Seq<Account>, i: int)
    requires
        owners_distinct(s),
        0 <= i < s.len(),
    ensures
        has_owner(s, s[i].owner@),
        owner_index(s, s[i].owner@) == i,
{
    let k = s[i].owner@;
    assert(has_owner(s, k));
    let j = owner_index(s, k);
    if j != i {
        assert(s[j].owner@ == k);
    }
}

proof fn lemma_id_index(s: Seq<Order>, i: int)
    requires
        ids_distinct(s),
        0 <= i < s.len(),
    ensures
        has_id(s, s[i].id),
        id_index(s, s[i].id) == i,
{
    let k = s[i].id;
    assert(has_id(s, k));
    let j = id_index(s, k);
    if j != i {
        assert(s[j].id == k);
    }
}

/// Every account is stored under its own owner and every order under its own
/// identifier.
pub open spec fn keys_match(v: SchemaView) -> bool {
    &&& forall|k: Seq<u8>| #[trigger] v.accounts.contains_key(k) ==> v.accounts[k].owner == k
    &&& forall|id: u32| #[trigger] v.orders.contains_key(id) ==> v.orders[id].id == id
}

/// Law: after storing an account, looking up its owner gives that account,
/// and every other owner's account is as it was.
pub proof fn lemma_account_read_after_write(v: SchemaView, a: AccountView, k: Seq<u8>)
    ensures
        v.accounts.insert(a.owner, a).contains_key(a.owner),
        v.accounts.insert(a.owner, a)[a.owner] == a,
        k != a.owner ==> (v.accounts.insert(a.owner, a).contains_key(k) == v.accounts.contains_key(k)
            && v.accounts.insert(a.owner, a)[k] == v.accounts[k]),
{
}

/// Law: after storing an order, looking up its identifier gives that order;
/// after removing it, the identifier is free; other orders are untouched.
pub proof fn lemma_order_read_after_write(v: SchemaView, o: OrderView, id: u32)
    ensures
        v.orders.insert(o.id, o)[o.id] == o,
        !v.orders.remove(o.id).contains_key(o.id),
        id != o.id ==> (v.orders.insert(o.id, o).contains_key(id) == v.orders.contains_key(id)
            && v.orders.insert(o.id, o)[id] == v.orders[id]
            && v.orders.remove(o.id).contains_key(id) == v.orders.contains_key(id)),
{
}

/// The accounts and orders of the exchange.
pub struct ExchangeSchema {
    accounts: Vec<Account>,
    orders: Vec<Order>,
}

impl View for ExchangeSchema {
    type V = SchemaView;

    closed spec fn view(&self) -> SchemaView {
        SchemaView { accounts: accounts_map(self.accounts@), orders: orders_map(self.orders@) }
    }
}

/// Compares two 32-byte keys.
fn keys_equal(a: &[u8; 32], b: &[u8; 32]) -> (r: bool)
    ensures
        r == (a@ == b@),
{
    let mut i: usize = 0;
    while i < 32
        invariant
            i <= 32,
            forall|j: int| 0 <= j < i ==> a@[j] == b@[j],
        decreases 32 - i,
    {
        if a[i] != b[i] {
            return false;
        }
        i = i + 1;
    }
    assert(a@ =~= b@);
    true
}

impl ExchangeSchema {
    #[verifier::type_invariant]
    spec fn keys_unique(self) -> bool {
        &&& owners_distinct(self.accounts@)
        &&& ids_increasing(self.orders@)
        &&& ids_distinct(self.orders@)
    }

    /// An empty store.
    pub fn new() -> (r: ExchangeSchema)
        ensures
            r@.accounts == Map::<Seq<u8>, AccountView>::empty(),
            r@.orders == Map::<u32, OrderView>::empty(),
    {
        let r = ExchangeSchema { accounts: Vec::new(), orders: Vec::new() };
        assert(accounts_map(r.accounts@) =~= Map::<Seq<u8>, AccountView>::empty());
        assert(orders_map(r.orders@) =~= Map::<u32, OrderView>::empty());
        r
    }

    /// Every account is stored under its own owner and every order under its
    /// own identifier.
    pub proof fn lemma_keys_match(&self)
        ensures
            keys_match(self@),
    {
        assert forall|k: Seq<u8>| #[trigger] self@.accounts.contains_key(k) implies self@.accounts[k].owner == k by {
            let i = owner_index(self.accounts@, k);
            assert(self.accounts@[i].owner@ == k);
        }
        assert forall|id: u32| #[trigger] self@.orders.contains_key(id) implies self@.orders[id].id == id by {
            let i = id_index(self.orders@, id);
            assert(self.orders@[i].id == id);
        }
    }

    fn find_account(&self, owner: &[u8; 32]) -> (r: Option<usize>)
        ensures
            r matches Some(i) ==> i < self.accounts@.len() && self.accounts@[i as int].owner@ == owner@,
            r is None ==> !has_owner(self.accounts@, owner@),
    {
        let mut i: usize = 0;
        while i < self.accounts.len()
            invariant
                i <= self.accounts@.len(),
                forall|j: int| 0 <= j < i ==> (#[trigger] self.accounts@[j]).owner@ != owner@,
            decreases self.accounts.len() - i,
        {
            if keys_equal(&self.accounts[i].owner, owner) {
                return Some(i);
            }
            i = i + 1;
        }
        None
    }

    fn find_order(&self, id: u32) -> (r: Option<usize>)
        ensures
            r matches Some(i) ==> i < self.orders@.len() && self.orders@[i as int].id == id,
            r is None ==> !has_id(self.orders@, id),
    {
        let mut i: usize = 0;
        while i < self.orders.len()
            invariant
                i <= self.orders@.len(),
                forall|j: int| 0 <= j < i ==> (#[trigger] self.orders@[j]).id != id,
            decreases self.orders.len() - i,
        {
            if self.orders[i].id == id {
                return Some(i);
            }
            i = i + 1;
        }
        None
    }

    /// The account of `owner`, if there is one.
    pub fn account(&self, owner: &[u8; 32]) -> (r: Option<Account>)
        ensures
            r is Some <==> self@.accounts.contains_key(owner@),
            r matches Some(a) ==> a@ == self@.accounts[owner@],
    {
        proof {
            use_type_invariant(self);
        }
        match self.find_account(owner) {
            Some(i) => {
                proof {
                    lemma_owner_index(self.accounts@, i as int);
                }
                Some(self.accounts[i].duplicate())
            },
            None => None,
        }
    }

    /// Whether an order with identifier `id` is stored.
    pub fn contains_order(&self, id: u32) -> (r: bool)
        ensures
            r == self@.orders.contains_key(id),
    {
        self.find_order(id).is_some()
    }

    /// The order with identifier `id`, if there is one.
    pub fn order(&self, id: u32) -> (r: Option<Order>)
        ensures
            r is Some <==> self@.orders.contains_key(id),
            r matches Some(o) ==> o@ == self@.orders[id],
    {
        proof {
            use_type_invariant(self);
        }
        match self.find_order(id) {
            Some(i) => {
                proof {
                    lemma_id_index(self.orders@, i as int);
                }
                Some(self.orders[i].duplicate())
            },
            None => None,
        }
    }

    /// Stores `account` under its owner, replacing any account stored there.
    pub fn put_account(&mut self, account: Account)
        ensures
            final(self)@.accounts == old(self)@.accounts.insert(account.owner@, account@),
            final(self)@.orders == old(self)@.orders,
    {
        proof {
            use_type_invariant(&*self);
        }
        let ghost old_s = self.accounts@;
        let ghost old_orders = self.orders@;
        let ghost k = account.owner@;
        let ghost a = account@;
        let found = self.find_account(&account.owner);
        let mut accounts: Vec<Account> = Vec::new();
        std::mem::swap(&mut accounts, &mut self.accounts);
        match found {
            Some(i) => {
                accounts.set(i, account);
                proof {
                    let s = accounts@;
                    assert(s =~= old_s.update(i as int, s[i as int]));
                    assert(owners_distinct(s)) by {
                        assert forall|p: int, q: int|
                            0 <= p < s.len() && 0 <= q < s.len() && p != q implies (#[trigger] s[p]).owner@
                            != (#[trigger] s[q]).owner@ by {
                            if p != i && q != i {
                                assert(s[p] == old_s[p] && s[q] == old_s[q]);
                            } else if p == i {
                                assert(old_s[q].owner@ != old_s[i as int].owner@);
                            } else {
                                assert(old_s[p].owner@ != old_s[i as int].owner@);
                            }
                        }
                    }
                    assert(accounts_map(s) =~= accounts_map(old_s).insert(k, a)) by {
                        assert forall|k2: Seq<u8>| #[trigger] has_owner(s, k2) == (has_owner(old_s, k2) || k2 == k) by {
                            if has_owner(old_s, k2) {
                                let j = owner_index(old_s, k2);
                                if j == i {
                                    assert(s[i as int].owner@ == k);
                                } else {
                                    assert(s[j].owner@ == k2);
                                }
                            }
                            if k2 == k {
                                assert(s[i as int].owner@ == k2);
                            }
                            if has_owner(s, k2) {
                                let j = owner_index(s, k2);
                                if j != i {
                                    assert(old_s[j].owner@ == k2);
                                }
                            }
                        }
                        assert forall|k2: Seq<u8>| #[trigger] has_owner(s, k2) implies s[owner_index(s, k2)]@
                            == accounts_map(old_s).insert(k, a)[k2] by {
                            let j = owner_index(s, k2);
                            lemma_owner_index(s, j);
                            if k2 == k {
                                lemma_owner_index(s, i as int);
                            } else {
                                assert(j != i);
                                lemma_owner_index(old_s, j);
                            }
                        }
                    }
                }
            },
            None => {
                accounts.push(account);
                proof {
                    let s = accounts@;
                    let n = old_s.len() as int;
                    assert(s =~= old_s.push(s[n]));
                    assert(owners_distinct(s)) by {
                        assert forall|p: int, q: int|
                            0 <= p < s.len() && 0 <= q < s.len() && p != q implies (#[trigger] s[p]).owner@
                            != (#[trigger] s[q]).owner@ by {
                            if p < n && q < n {
                                assert(s[p] == old_s[p] && s[q] == old_s[q]);
                            } else if p == n {
                                assert(s[q] == old_s[q]);
                            } else {
                                assert(s[p] == old_s[p]);
                            }
                        }
                    }
                    assert(accounts_map(s) =~= accounts_map(old_s).insert(k, a)) by {
                        assert forall|k2: Seq<u8>| #[trigger] has_owner(s, k2) == (has_owner(old_s, k2) || k2 == k) by {
                            if has_owner(old_s, k2) {
                                let j = owner_index(old_s, k2);
                                assert(s[j] == old_s[j]);
                            }
                            if k2 == k {
                                assert(s[n].owner@ == k2);
                            }
                            if has_owner(s, k2) {
                                let j = owner_index(s, k2);
                                if j != n {
                                    assert(old_s[j] == s[j]);
                                }
                            }
                        }
                        assert forall|k2: Seq<u8>| #[trigger] has_owner(s, k2) implies s[owner_index(s, k2)]@
                            == accounts_map(old_s).insert(k, a)[k2] by {
                            let j = owner_index(s, k2);
                            lemma_owner_index(s, j);
                            if k2 == k {
                                lemma_owner_index(s, n);
                            } else {
                                assert(j != n);
                                assert(s[j] == old_s[j]);
                                lemma_owner_index(old_s, j);
                            }
                        }
                    }
                }
            },
        }
        self.accounts = accounts;
        assert(self.orders@ == old_orders);
    }

    /// Stores `order` under its identifier, replacing any order stored there.
    pub fn put_order(&mut self, order: Order)
        ensures
            final(self)@.orders == old(self)@.orders.insert(order.id, order@),
            final(self)@.accounts == old(self)@.accounts,
    {
        proof {
            use_type_invariant(&*self);
        }
        let ghost old_s = self.orders@;
        let ghost old_accounts = self.accounts@;
        let ghost k = order.id;
        let ghost a = order@;
        let mut i: usize = 0;
        while i < self.orders.len() && self.orders[i].id < order.id
            invariant
                i <= self.orders@.len(),
                self.orders@ == old_s,
                k == order.id,
                forall|j: int| 0 <= j < i ==> (#[trigger] old_s[j]).id < k,
            decreases self.orders.len() - i,
        {
            i = i + 1;
        }
        let replace = i < self.orders.len() && self.orders[i].id == order.id;
        let mut orders: Vec<Order> = Vec::new();
        std::mem::swap(&mut orders, &mut self.orders);
        if replace {
            {
                orders.set(i, order);
                proof {
                    let s = orders@;
                    assert(ids_increasing(s)) by {
                        assert forall|p: int, q: int| 0 <= p < q < s.len() implies (#[trigger] s[p]).id < (#[trigger] s[q]).id by {
                            if p != i && q != i {
                                assert(s[p] == old_s[p] && s[q] == old_s[q]);
                            } else if p == i {
                                assert(old_s[p].id < old_s[q].id);
                            } else {
                                assert(old_s[p].id < old_s[q].id);
                            }
                        }
                    }
                    assert(ids_distinct(s)) by {
                        assert forall|p: int, q: int|
                            0 <= p < s.len() && 0 <= q < s.len() && p != q implies (#[trigger] s[p]).id
                            != (#[trigger] s[q]).id by {
                            if p != i && q != i {
                                assert(s[p] == old_s[p] && s[q] == old_s[q]);
                            } else if p == i {
                                assert(old_s[q].id != old_s[i as int].id);
                            } else {
                                assert(old_s[p].id != old_s[i as int].id);
                            }
                        }
                    }
                    assert(orders_map(s) =~= orders_map(old_s).insert(k, a)) by {
                        assert forall|k2: u32| #[trigger] has_id(s, k2) == (has_id(old_s, k2) || k2 == k) by {
                            if has_id(old_s, k2) {
                                let j = id_index(old_s, k2);
                                if j == i {
                                    assert(s[i as int].id == k);
                                } else {
                                    assert(s[j].id == k2);
                                }
                            }
                            if k2 == k {
                                assert(s[i as int].id == k2);
                            }
                            if has_id(s, k2) {
                                let j = id_index(s, k2);
                                if j != i {
                                    assert(old_s[j].id == k2);
                                }
                            }
                        }
                        assert forall|k2: u32| #[trigger] has_id(s, k2) implies s[id_index(s, k2)]@
                            == orders_map(old_s).insert(k, a)[k2] by {
                            let j = id_index(s, k2);
                            lemma_id_index(s, j);
                            if k2 == k {
                                lemma_id_index(s, i as int);
                            } else {
                                assert(j != i);
                                lemma_id_index(old_s, j);
                            }
                        }
                    }
                }
            }
        } else {
            orders.insert(i, order);
            proof {
                let s = orders@;
                let ii = i as int;
                assert(s =~= old_s.insert(ii, s[ii]));
                assert forall|j: int| 0 <= j < s.len() implies #[trigger] s[j] == (if j < ii { old_s[j] } else if j == ii { s[ii] } else { old_s[j - 1] }) by {}
                assert(!has_id(old_s, k)) by {
                    if has_id(old_s, k) {
                        let j = id_index(old_s, k);
                        if j < ii {
                            assert(old_s[j].id < k);
                        } else {
                            assert(old_s[ii].id != k);
                            if j > ii {
                                assert(old_s[ii].id < old_s[j].id);
                            }
                            assert(old_s[ii].id >= k);
                        }
                    }
                }
                assert(ids_increasing(s)) by {
                    assert forall|p: int, q: int| 0 <= p < q < s.len() implies (#[trigger] s[p]).id < (#[trigger] s[q]).id by {
                        if q < ii {
                            assert(old_s[p].id < old_s[q].id);
                        } else if q == ii {
                            assert(old_s[p].id < k);
                        } else if p < ii {
                            assert(old_s[p].id < k);
                            assert(old_s[ii].id >= k);
                            if q - 1 > ii {
                                assert(old_s[ii].id < old_s[q - 1].id);
                            }
                        } else if p == ii {
                            assert(old_s[ii].id != k);
                            assert(old_s[ii].id >= k);
                            if q - 1 > ii {
                                assert(old_s[ii].id < old_s[q - 1].id);
                            }
                        } else {
                            assert(old_s[p - 1].id < old_s[q - 1].id);
                        }
                    }
                }
                lemma_increasing_distinct(s);
                assert(orders_map(s) =~= orders_map(old_s).insert(k, a)) by {
                    assert forall|k2: u32| #[trigger] has_id(s, k2) == (has_id(old_s, k2) || k2 == k) by {
                        if has_id(old_s, k2) {
                            let j = id_index(old_s, k2);
                            if j < ii {
                                assert(s[j] == old_s[j]);
                            } else {
                                assert(s[j + 1] == old_s[j]);
                            }
                        }
                        if k2 == k {
                            assert(s[ii].id == k2);
                        }
                        if has_id(s, k2) {
                            let j = id_index(s, k2);
                            if j < ii {
                                assert(old_s[j] == s[j]);
                            } else if j > ii {
                                assert(old_s[j - 1] == s[j]);
                            }
                        }
                    }
                    assert forall|k2: u32| #[trigger] has_id(s, k2) implies s[id_index(s, k2)]@
                        == orders_map(old_s).insert(k, a)[k2] by {
                        let j = id_index(s, k2);
                        lemma_id_index(s, j);
                        if k2 == k {
                            lemma_id_index(s, ii);
                        } else {
                            assert(j != ii);
                            if j < ii {
                                assert(s[j] == old_s[j]);
                                lemma_id_index(old_s, j);
                            } else {
                                assert(s[j] == old_s[j - 1]);
                                lemma_id_index(old_s, j - 1);
                            }
                        }
                    }
                }
            }
        }
        self.orders = orders;
        assert(self.accounts@ == old_accounts);
    }

    /// Removes the order with identifier `id`, if there is one.
    pub fn remove_order(&mut self, id: u32)
        ensures
            final(self)@.orders == old(self)@.orders.remove(id),
            final(self)@.accounts == old(self)@.accounts,
    {
        proof {
            use_type_invariant(&*self);
        }
        let ghost old_s = self.orders@;
        let ghost old_accounts = self.accounts@;
        let found = self.find_order(id);
        match found {
            Some(i) => {
                let mut orders: Vec<Order> = Vec::new();
                std::mem::swap(&mut orders, &mut self.orders);
                orders.remove(i);
                proof {
                    let s = orders@;
                    assert(s =~= old_s.remove(i as int));
                    assert forall|j: int| 0 <= j < s.len() implies #[trigger] s[j] == old_s[if j < i { j } else { j + 1 }] by {}
                    assert(ids_distinct(s)) by {
                        assert forall|p: int, q: int|
                            0 <= p < s.len() && 0 <= q < s.len() && p != q implies (#[trigger] s[p]).id
                            != (#[trigger] s[q]).id by {
                            let p2 = if p < i { p } else { p + 1 };
                            let q2 = if q < i { q } else { q + 1 };
                            assert(s[p] == old_s[p2] && s[q] == old_s[q2]);
                        }
                    }
                    assert(ids_increasing(s)) by {
                        assert forall|p: int, q: int| 0 <= p < q < s.len() implies (#[trigger] s[p]).id < (#[trigger] s[q]).id by {
                            let p2 = if p < i { p } else { p + 1 };
                            let q2 = if q < i { q } else { q + 1 };
                            assert(s[p] == old_s[p2] && s[q] == old_s[q2]);
                            assert(old_s[p2].id < old_s[q2].id);
                        }
                    }
                    assert(orders_map(s) =~= orders_map(old_s).remove(id)) by {
                        assert forall|k2: u32| #[trigger] has_id(s, k2) == (has_id(old_s, k2) && k2 != id) by {
                            if has_id(old_s, k2) && k2 != id {
                                let j = id_index(old_s, k2);
                                assert(j != i);
                                let j2 = if j < i { j } else { j - 1 };
                                assert(s[j2] == old_s[j]);
                            }
                            if has_id(s, k2) {
                                let j = id_index(s, k2);
                                let j2 = if j < i { j } else { j + 1 };
                                assert(s[j] == old_s[j2]);
                                assert(j2 != i as int);
                                lemma_id_index(old_s, i as int);
                            }
                        }
                        assert forall|k2: u32| #[trigger] has_id(s, k2) implies s[id_index(s, k2)]@
                            == orders_map(old_s).remove(id)[k2] by {
                            let j = id_index(s, k2);
                            let j2 = if j < i { j } else { j + 1 };
                            assert(s[j] == old_s[j2]);
                            lemma_id_index(old_s, j2);
                        }
                    }
                }
                self.orders = orders;
            },
            None => {
                proof {
                    assert(orders_map(old_s) =~= orders_map(old_s).remove(id));
                }
            },
        }
        assert(self.accounts@ == old_accounts);
    }

    /// Every stored order, each once, in increasing order of identifier.
    pub fn orders(&self) -> (r: Vec<Order>)
        ensures
            ids_distinct(r@),
            ids_increasing(r@),
            forall|i: int| 0 <= i < r@.len() ==> self@.orders.contains_key(#[trigger] r@[i].id)
                && self@.orders[r@[i].id] == r@[i]@,
            forall|id: u32| self@.orders.contains_key(id) ==> has_id(r@, id),
    {
        proof {
            use_type_invariant(self);
        }
        let mut out: Vec<Order> = Vec::new();
        let mut i: usize = 0;
        while i < self.orders.len()
            invariant
                i <= self.orders@.len(),
                ids_distinct(self.orders@),
                ids_increasing(self.orders@),
                out@.len() == i,
                forall|j: int| 0 <= j < i ==> (#[trigger] out@[j])@ == self.orders@[j]@,
            decreases self.orders.len() - i,
        {
            out.push(self.orders[i].duplicate());
            i = i + 1;
        }
        proof {
            assert forall|p: int, q: int|
                0 <= p < out@.len() && 0 <= q < out@.len() && p != q implies (#[trigger] out@[p]).id
                != (#[trigger] out@[q]).id by {
                assert(out@[p]@ == self.orders@[p]@ && out@[q]@ == self.orders@[q]@);
            }
            assert forall|p: int, q: int| 0 <= p < q < out@.len() implies (#[trigger] out@[p]).id < (#[trigger] out@[q]).id by {
                assert(out@[p]@ == self.orders@[p]@ && out@[q]@ == self.orders@[q]@);
            }
            assert forall|j: int| 0 <= j < out@.len() implies self@.orders.contains_key(#[trigger] out@[j].id)
                && self@.orders[out@[j].id] == out@[j]@ by {
                assert(out@[j]@ == self.orders@[j]@);
                lemma_id_index(self.orders@, j);
            }
            assert forall|id: u32| self@.orders.contains_key(id) implies has_id(out@, id) by {
                let j = id_index(self.orders@, id);
                assert(out@[j]@ == self.orders@[j]@);
                assert(out@[j].id == id);
            }
        }
        out
    }

    /// Every stored account, each once.
    pub fn accounts(&self) -> (r: Vec<Account>)
        ensures
            owners_distinct(r@),
            forall|i: int| 0 <= i < r@.len() ==> self@.accounts.contains_key(#[trigger] r@[i].owner@)
                && self@.accounts[r@[i].owner@] == r@[i]@,
            forall|k: Seq<u8>| self@.accounts.contains_key(k) ==> has_owner(r@, k),
    {
        proof {
            use_type_invariant(self);
        }
        let mut out: Vec<Account> = Vec::new();
        let mut i: usize = 0;
        while i < self.accounts.len()
            invariant
                i <= self.accounts@.len(),
                owners_distinct(self.accounts@),
                out@.len() == i,
                forall|j: int| 0 <= j < i ==> (#[trigger] out@[j])@ == self.accounts@[j]@,
            decreases self.accounts.len() - i,
        {
            out.push(self.accounts[i].duplicate());
            i = i + 1;
        }
        proof {
            assert forall|p: int, q: int|
                0 <= p < out@.len() && 0 <= q < out@.len() && p != q implies (#[trigger] out@[p]).owner@
                != (#[trigger] out@[q]).owner@ by {
                assert(out@[p]@ == self.accounts@[p]@ && out@[q]@ == self.accounts@[q]@);
            }
            assert forall|j: int| 0 <= j < out@.len() implies self@.accounts.contains_key(
                #[trigger] out@[j].owner@,
            ) && self@.accounts[out@[j].owner@] == out@[j]@ by {
                assert(out@[j]@ == self.accounts@[j]@);
                lemma_owner_index(self.accounts@, j);
            }
            assert forall|k: Seq<u8>| self@.accounts.contains_key(k) implies has_owner(out@, k) by {
                let j = owner_index(self.accounts@, k);
                assert(out@[j]@ == self.accounts@[j]@);
                assert(out@[j].owner@ == k);
            }
        }
        out
    }
}

} // verus!
