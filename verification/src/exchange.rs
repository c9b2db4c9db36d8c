//! The ledger of the exchange node: accounts, orders, and what each
//! transaction does to them.

use vstd::prelude::*;

verus! {

/// Dollar balance (in cents) of a new account.
pub const USD_BALANCE: u32 = 1_000_000;

/// Token balance (in thousandths) of a new account.
pub const TOKEN_BALANCE: u32 = 1_000;

/// An account as a mathematical value.
pub struct AccountView {
    pub owner: Seq<u8>,
    pub usd_balance: u32,
    pub token_balance: u32,
    pub orders: Seq<u32>,
}

/// An account: its owner's public key, its balances, and the identifiers of
/// its open orders.
pub struct Account {
    pub owner: [u8; 32],
    pub usd_balance: u32,
    pub token_balance: u32,
    pub orders: Vec<u32>,
}

impl View for Account {
    type V = AccountView;

    open spec fn view(&self) -> AccountView {
        AccountView {
            owner: self.owner@,
            usd_balance: self.usd_balance,
            token_balance: self.token_balance,
            orders: self.orders@,
        }
    }
}

/// The two's complement reading of the bits of `x` (Rust's `x as i32`).
pub open spec fn u32_as_i32(x: u32) -> int {
    if x < 0x8000_0000 {
        x as int
    } else {
        x - 0x1_0000_0000
    }
}

/// The bits of a 32-bit signed `x` read as unsigned (Rust's `x as u32`).
pub open spec fn i32_as_u32(x: int) -> int {
    if x < 0 {
        x + 0x1_0000_0000
    } else {
        x
    }
}

/// The dollar amount of a trade, as the account code computes it:
/// `(price as i32 * amount) as u32`.
pub open spec fn trade_value(price: u32, amount: i32) -> int {
    i32_as_u32(u32_as_i32(price) * amount)
}

/// The multiplication `price as i32 * amount` stays within `i32`.
pub open spec fn trade_in_range(price: u32, amount: i32) -> bool {
    i32::MIN <= u32_as_i32(price) * amount <= i32::MAX
}

fn u32_to_i32(x: u32) -> (r: i32)
    ensures
        r == u32_as_i32(x),
{
    if x < 0x8000_0000 {
        x as i32
    } else {
        ((x - 0x8000_0000) as i32) - 0x7fff_ffff - 1
    }
}

fn i32_to_u32(x: i32) -> (r: u32)
    ensures
        r == i32_as_u32(x as int),
{
    if x < 0 {
        ((x + 0x7fff_ffff + 1) as u32) + 0x8000_0000
    } else {
        x as u32
    }
}

/// A copy of a list of order identifiers.
fn copy_ids(ids: &Vec<u32>) -> (r: Vec<u32>)
    ensures
        r@ == ids@,
{
    let mut out: Vec<u32> = Vec::new();
    let mut i: usize = 0;
    while i < ids.len()
        invariant
            i <= ids.len(),
            out@ == ids@.subrange(0, i as int),
        decreases ids.len() - i,
    {
        out.push(ids[i]);
        assert(ids@.subrange(0, i + 1) =~= ids@.subrange(0, i as int).push(ids@[i as int]));
        i = i + 1;
    }
    assert(ids@.subrange(0, ids.len() as int) =~= ids@);
    out
}

/// `i` is the first position of `x` in `s`.
pub open spec fn is_first_index(s: Seq<u32>, x: u32, i: int) -> bool {
    &&& 0 <= i < s.len()
    &&& s[i] == x
    &&& forall|j: int| 0 <= j < i ==> s[j] != x
}

/// `s` without the first occurrence of `x` (unchanged when `x` does not
/// occur).
pub open spec fn remove_first(s: Seq<u32>, x: u32) -> Seq<u32> {
    if s.contains(x) {
        s.remove(choose|i: int| is_first_index(s, x, i))
    } else {
        s
    }
}

/// The first position of an element is unique.
pub(crate) proof fn lemma_first_index_unique(s: Seq<u32>, x: u32, i: int, k: int)
    requires
        is_first_index(s, x, i),
        is_first_index(s, x, k),
    ensures
        i == k,
{
    if i < k {
        assert(s[i] != x);
    } else if k < i {
        assert(s[k] != x);
    }
}

/// Removing the first occurrence of `x` from `s` with `x` appended gives `s`
/// back when `s` did not hold `x`.
pub(crate) proof fn lemma_remove_first_of_push(s: Seq<u32>, x: u32)
    requires
        !s.contains(x),
    ensures
        remove_first(s.push(x), x) == s,
{
    let t = s.push(x);
    let n = s.len() as int;
    assert(t[n] == x);
    assert(t.contains(x));
    assert forall|j: int| 0 <= j < n implies t[j] != x by {
        assert(t[j] == s[j]);
        if s[j] == x {
            assert(s.contains(x));
        }
    }
    assert(is_first_index(t, x, n));
    let i = choose|i: int| is_first_index(t, x, i);
    lemma_first_index_unique(t, x, i, n);
    assert(t.remove(n) =~= s);
}

/// The account after buying `amount` tokens at `price` as order `id`.
pub open spec fn bought(a: AccountView, price: u32, amount: i32, id: u32) -> AccountView {
    AccountView {
        usd_balance: (a.usd_balance - trade_value(price, amount)) as u32,
        token_balance: (a.token_balance + i32_as_u32(amount as int)) as u32,
        orders: a.orders.push(id),
        ..a
    }
}

/// Buying is possible without overflow: the multiplication stays in `i32`,
/// the dollars suffice, and the tokens do not overflow.
pub open spec fn can_buy(a: AccountView, price: u32, amount: i32) -> bool {
    &&& trade_in_range(price, amount)
    &&& trade_value(price, amount) <= a.usd_balance
    &&& a.token_balance + i32_as_u32(amount as int) <= u32::MAX
}

/// The account after selling `amount` tokens at `price` as order `id`.
pub open spec fn sold(a: AccountView, price: u32, amount: i32, id: u32) -> AccountView {
    AccountView {
        usd_balance: (a.usd_balance + trade_value(price, amount)) as u32,
        token_balance: (a.token_balance - i32_as_u32(amount as int)) as u32,
        orders: a.orders.push(id),
        ..a
    }
}

/// Selling is possible without overflow: the multiplication stays in `i32`,
/// the dollars do not overflow, and the tokens suffice.
pub open spec fn can_sell(a: AccountView, price: u32, amount: i32) -> bool {
    &&& trade_in_range(price, amount)
    &&& a.usd_balance + trade_value(price, amount) <= u32::MAX
    &&& i32_as_u32(amount as int) <= a.token_balance
}

/// Law: after a purchase the same sale is always possible, and it gives the
/// balances back; both orders stay listed.
pub proof fn lemma_sell_undoes_buy(a: AccountView, price: u32, amount: i32, id1: u32, id2: u32)
    requires
        can_buy(a, price, amount),
    ensures
        can_sell(bought(a, price, amount, id1), price, amount),
        sold(bought(a, price, amount, id1), price, amount, id2) == (AccountView {
            orders: a.orders.push(id1).push(id2),
            ..a
        }),
{
}

/// Law: for a price and an amount that are not negative, buying costs
/// exactly `price * amount` dollars and brings exactly `amount` tokens, and
/// selling does the reverse; the order joins the list in both cases.
pub proof fn lemma_trade_arithmetic(a: AccountView, price: u32, amount: i32, id: u32)
    requires
        price <= i32::MAX,
        amount >= 0,
    ensures
        can_buy(a, price, amount) ==> {
            &&& bought(a, price, amount, id).usd_balance == a.usd_balance - price * amount
            &&& bought(a, price, amount, id).token_balance == a.token_balance + amount
            &&& bought(a, price, amount, id).orders == a.orders.push(id)
            &&& bought(a, price, amount, id).owner == a.owner
        },
        can_sell(a, price, amount) ==> {
            &&& sold(a, price, amount, id).usd_balance == a.usd_balance + price * amount
            &&& sold(a, price, amount, id).token_balance == a.token_balance - amount
            &&& sold(a, price, amount, id).orders == a.orders.push(id)
            &&& sold(a, price, amount, id).owner == a.owner
        },
{
    if can_buy(a, price, amount) || can_sell(a, price, amount) {
        assert(price * amount >= 0) by (nonlinear_arith)
            requires
                price >= 0,
                amount >= 0,
        ;
    }
}

impl Account {
    /// An account with the given fields.
    pub fn new(owner: &[u8; 32], usd_balance: u32, token_balance: u32, orders: Vec<u32>) -> (r: Account)
        ensures
            r@ == (AccountView { owner: owner@, usd_balance, token_balance, orders: orders@ }),
    {
        Account { owner: *owner, usd_balance, token_balance, orders }
    }

    /// A copy of the account.
    pub fn duplicate(&self) -> (r: Account)
        ensures
            r@ == self@,
    {
        Account {
            owner: self.owner,
            usd_balance: self.usd_balance,
            token_balance: self.token_balance,
            orders: copy_ids(&self.orders),
        }
    }

    /// Buys `amount` tokens at `price` as order `id`: the dollar balance
    /// falls by `(price as i32 * amount) as u32`, the token balance rises by
    /// `amount as u32`, and `id` joins the orders.
    pub fn buy_tokens(&self, price: u32, amount: i32, id: u32) -> (r: Account)
        requires
            can_buy(self@, price, amount),
        ensures
            r@ == bought(self@, price, amount, id),
    {
        let p = u32_to_i32(price);
        let value = i32_to_u32(p * amount);
        let usd_balance = self.usd_balance - value;
        let token_balance = self.token_balance + i32_to_u32(amount);
        let mut orders = copy_ids(&self.orders);
        orders.push(id);
        Account::new(&self.owner, usd_balance, token_balance, orders)
    }

    /// Sells `amount` tokens at `price` as order `id`: the dollar balance
    /// rises by `(price as i32 * amount) as u32`, the token balance falls by
    /// `amount as u32`, and `id` joins the orders.
    pub fn sell_tokens(&self, price: u32, amount: i32, id: u32) -> (r: Account)
        requires
            can_sell(self@, price, amount),
        ensures
            r@ == sold(self@, price, amount, id),
    {
        let p = u32_to_i32(price);
        let value = i32_to_u32(p * amount);
        let usd_balance = self.usd_balance + value;
        let token_balance = self.token_balance - i32_to_u32(amount);
        let mut orders = copy_ids(&self.orders);
        orders.push(id);
        Account::new(&self.owner, usd_balance, token_balance, orders)
    }

    /// The account with order `id` added to its orders.
    pub fn add_order_id(&self, id: u32) -> (r: Account)
        ensures
            r@ == (AccountView { orders: self.orders@.push(id), ..self@ }),
    {
        let mut orders = copy_ids(&self.orders);
        orders.push(id);
        Account::new(&self.owner, self.usd_balance, self.token_balance, orders)
    }

    /// The account without the first occurrence of `id` in its orders, or
    /// `None` when it has no such order.
    pub fn remove_order_by_id(&self, id: u32) -> (r: Option<Account>)
        ensures
            r is Some <==> self.orders@.contains(id),
            r matches Some(a) ==> a@ == (AccountView {
                orders: remove_first(self.orders@, id),
                ..self@
            }),
    {
        let mut orders = copy_ids(&self.orders);
        let mut i: usize = 0;
        while i < orders.len()
            invariant
                i <= orders.len(),
                orders@ == self.orders@,
                forall|j: int| 0 <= j < i ==> orders@[j] != id,
            decreases orders.len() - i,
        {
            if orders[i] == id {
                proof {
                    assert(is_first_index(self.orders@, id, i as int));
                    let k = choose|k: int| is_first_index(self.orders@, id, k);
                    lemma_first_index_unique(self.orders@, id, i as int, k);
                }
                orders.remove(i);
                return Some(Account::new(&self.owner, self.usd_balance, self.token_balance, orders));
            }
            i = i + 1;
        }
        None
    }
}

/// An order as a mathematical value.
pub struct OrderView {
    pub owner: Seq<u8>,
    pub price: u32,
    pub amount: i32,
    pub id: u32,
}

/// An open order: its owner, the price, the number of tokens (negative to
/// sell) and its identifier.
pub struct Order {
    pub owner: [u8; 32],
    pub price: u32,
    pub amount: i32,
    pub id: u32,
}

impl View for Order {
    type V = OrderView;

    open spec fn view(&self) -> OrderView {
        OrderView { owner: self.owner@, price: self.price, amount: self.amount, id: self.id }
    }
}

impl Order {
    /// An order with the given fields.
    pub fn new(owner: &[u8; 32], price: u32, amount: i32, id: u32) -> (r: Order)
        ensures
            r@ == (OrderView { owner: owner@, price, amount, id }),
    {
        Order { owner: *owner, price, amount, id }
    }

    /// A copy of the order.
    pub fn duplicate(&self) -> (r: Order)
        ensures
            r@ == self@,
    {
        Order { owner: self.owner, price: self.price, amount: self.amount, id: self.id }
    }
}

} // verus!
