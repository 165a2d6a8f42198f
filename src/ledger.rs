//! A ledger of per-holder balances for the two tokens of a pool and its shares.
//!
//! The ledger is a sequence of `(holder, balance)` entries. A holder's balance is
//! the entry found by a search from the end; a holder without an entry owns
//! nothing. Crediting a holder without an entry appends one.
use vstd::prelude::*;
use crate::address::Address;
use crate::balance::{Balance, Token, empty_balance};
use crate::error::PoolError;
use crate::pricing::u128_max;

verus! {

/// The index of `user`'s entry among the first `n` entries, searching from the
/// end; `-1` when there is none.
pub open spec fn index_below(s: Seq<(Address, Balance)>, user: Address, n: int) -> int
    decreases n,
{
    if n <= 0 {
        -1
    } else if s[n - 1].0 == user {
        n - 1
    } else {
        index_below(s, user, n - 1)
    }
}

/// The index of `user`'s entry; `-1` when there is none.
pub open spec fn index_of(s: Seq<(Address, Balance)>, user: Address) -> int {
    index_below(s, user, s.len() as int)
}

/// What `user` holds according to the entries `s`.
pub open spec fn balance_in(s: Seq<(Address, Balance)>, user: Address) -> Balance {
    let i = index_of(s, user);
    if i >= 0 {
        s[i].1
    } else {
        empty_balance()
    }
}

/// How much of `token` `user` holds according to the entries `s`.
pub open spec fn amount_in(s: Seq<(Address, Balance)>, user: Address, token: Token) -> int {
    balance_in(s, user).amount(token) as int
}

/// The entries `s` with `user`'s amount of `token` set to `value`.
pub open spec fn with_amount_in(
    s: Seq<(Address, Balance)>,
    user: Address,
    token: Token,
    value: u128,
) -> Seq<(Address, Balance)> {
    let i = index_of(s, user);
    if i >= 0 {
        s.update(i, (user, s[i].1.with_amount(token, value)))
    } else {
        s.push((user, empty_balance().with_amount(token, value)))
    }
}

/// The sum of the amounts of `token` in the first `n` entries.
pub open spec fn total_below(s: Seq<(Address, Balance)>, token: Token, n: int) -> int
    decreases n,
{
    if n <= 0 {
        0
    } else {
        total_below(s, token, n - 1) + s[n - 1].1.amount(token)
    }
}

/// The sum over all holders of their amounts of `token`.
pub open spec fn total(s: Seq<(Address, Balance)>, token: Token) -> int {
    total_below(s, token, s.len() as int)
}

/// Crediting `amount` of `token` to `user`: refused when the result leaves `u128`.
pub open spec fn deposit_outcome(
    s: Seq<(Address, Balance)>,
    user: Address,
    token: Token,
    amount: u128,
) -> Result<Seq<(Address, Balance)>, PoolError> {
    if amount_in(s, user, token) + amount > u128_max() {
        Err(PoolError::Overflow)
    } else {
        Ok(with_amount_in(s, user, token, (amount_in(s, user, token) + amount) as u128))
    }
}

/// Debiting `amount` of `token` from `user`: refused when `user` holds less.
pub open spec fn withdraw_outcome(
    s: Seq<(Address, Balance)>,
    user: Address,
    token: Token,
    amount: u128,
) -> Result<Seq<(Address, Balance)>, PoolError> {
    if amount_in(s, user, token) < amount {
        Err(PoolError::InsufficientBalance)
    } else {
        Ok(with_amount_in(s, user, token, (amount_in(s, user, token) - amount) as u128))
    }
}

/// Moving `amount` of `token` from `from` to `to`: a debit, then a credit.
pub open spec fn transfer_outcome(
    s: Seq<(Address, Balance)>,
    from: Address,
    to: Address,
    token: Token,
    amount: u128,
) -> Result<Seq<(Address, Balance)>, PoolError> {
    match withdraw_outcome(s, from, token, amount) {
        Ok(s1) => deposit_outcome(s1, to, token, amount),
        Err(e) => Err(e),
    }
}

proof fn lemma_index_below_range(s: Seq<(Address, Balance)>, user: Address, n: int)
    requires
        0 <= n <= s.len(),
    ensures
        -1 <= index_below(s, user, n) < n,
        index_below(s, user, n) >= 0 ==> s[index_below(s, user, n)].0 == user,
    decreases n,
{
    if n > 0 {
        lemma_index_below_range(s, user, n - 1);
    }
}

/// The search finds an entry, if there is one, and it belongs to `user`.
pub proof fn lemma_index_of_range(s: Seq<(Address, Balance)>, user: Address)
    ensures
        -1 <= index_of(s, user) < s.len(),
        index_of(s, user) >= 0 ==> s[index_of(s, user)].0 == user,
{
    lemma_index_below_range(s, user, s.len() as int);
}

proof fn lemma_index_below_same_keys(
    s: Seq<(Address, Balance)>,
    t: Seq<(Address, Balance)>,
    user: Address,
    n: int,
)
    requires
        0 <= n <= s.len(),
        n <= t.len(),
        forall|j: int| 0 <= j < n ==> s[j].0 == t[j].0,
    ensures
        index_below(s, user, n) == index_below(t, user, n),
    decreases n,
{
    if n > 0 {
        lemma_index_below_same_keys(s, t, user, n - 1);
    }
}

proof fn lemma_total_below_update(
    s: Seq<(Address, Balance)>,
    token: Token,
    i: int,
    e: (Address, Balance),
    n: int,
)
    requires
        0 <= i < s.len(),
        0 <= n <= s.len(),
    ensures
        total_below(s.update(i, e), token, n) == total_below(s, token, n) + (if n > i {
            e.1.amount(token) - s[i].1.amount(token)
        } else {
            0
        }),
    decreases n,
{
    if n > 0 {
        lemma_total_below_update(s, token, i, e, n - 1);
    }
}

proof fn lemma_total_below_push(s: Seq<(Address, Balance)>, token: Token, e: (Address, Balance), n: int)
    requires
        0 <= n <= s.len(),
    ensures
        total_below(s.push(e), token, n) == total_below(s, token, n),
    decreases n,
{
    if n > 0 {
        lemma_total_below_push(s, token, e, n - 1);
    }
}

/// Setting one holder's amount of `token` changes the total of `token` by the
/// difference, and no other total.
pub proof fn lemma_total_with_amount(
    s: Seq<(Address, Balance)>,
    user: Address,
    token: Token,
    value: u128,
    other: Token,
)
    ensures
        total(with_amount_in(s, user, token, value), other) == total(s, other) + (if other
            == token {
            value - amount_in(s, user, token)
        } else {
            0
        }),
{
    lemma_index_of_range(s, user);
    let i = index_of(s, user);
    if i >= 0 {
        lemma_total_below_update(s, other, i, (user, s[i].1.with_amount(token, value)), s.len() as int);
    } else {
        let e = (user, empty_balance().with_amount(token, value));
        lemma_total_below_push(s, other, e, s.len() as int);
        assert(s.push(e)[s.len() as int] == e);
    }
}

/// Setting one holder's amount of `token` changes that holder's balance in that
/// token alone, and no other holder's balance.
pub proof fn lemma_balance_with_amount(
    s: Seq<(Address, Balance)>,
    user: Address,
    token: Token,
    value: u128,
    other: Address,
)
    ensures
        balance_in(with_amount_in(s, user, token, value), other) == if other == user {
            balance_in(s, user).with_amount(token, value)
        } else {
            balance_in(s, other)
        },
{
    lemma_index_of_range(s, user);
    lemma_index_of_range(s, other);
    let i = index_of(s, user);
    let t = with_amount_in(s, user, token, value);
    if i >= 0 {
        lemma_index_below_same_keys(s, t, other, s.len() as int);
    } else {
        let e = (user, empty_balance().with_amount(token, value));
        assert(t == s.push(e));
        lemma_index_below_same_keys(s, t, other, s.len() as int);
        if other != user {
            assert(index_of(t, other) == index_below(t, other, s.len() as int));
        }
    }
}

/// The change to `user`'s amount of `t` when `amount` of `token` is credited to `to`.
pub open spec fn credited(user: Address, t: Token, to: Address, token: Token, amount: int) -> int {
    if t == token && user == to {
        amount
    } else {
        0
    }
}

/// A successful credit adds `amount` to one holder's amount of one token, and to
/// the total of that token.
pub proof fn lemma_deposit_effect(
    s: Seq<(Address, Balance)>,
    user: Address,
    token: Token,
    amount: u128,
    s1: Seq<(Address, Balance)>,
)
    requires
        deposit_outcome(s, user, token, amount) == Ok::<Seq<(Address, Balance)>, PoolError>(s1),
    ensures
        forall|u: Address, t: Token| #[trigger]
            amount_in(s1, u, t) == amount_in(s, u, t) + credited(u, t, user, token, amount as int),
        forall|t: Token| #[trigger]
            total(s1, t) == total(s, t) + (if t == token {
                amount as int
            } else {
                0
            }),
{
    let v = (amount_in(s, user, token) + amount) as u128;
    assert forall|u: Address, t: Token| #[trigger]
        amount_in(s1, u, t) == amount_in(s, u, t) + credited(u, t, user, token, amount as int) by {
        lemma_balance_with_amount(s, user, token, v, u);
    }
    assert forall|t: Token| #[trigger]
        total(s1, t) == total(s, t) + (if t == token {
            amount as int
        } else {
            0
        }) by {
        lemma_total_with_amount(s, user, token, v, t);
    }
}

/// A successful debit takes `amount` from one holder's amount of one token, and
/// from the total of that token.
pub proof fn lemma_withdraw_effect(
    s: Seq<(Address, Balance)>,
    user: Address,
    token: Token,
    amount: u128,
    s1: Seq<(Address, Balance)>,
)
    requires
        withdraw_outcome(s, user, token, amount) == Ok::<Seq<(Address, Balance)>, PoolError>(s1),
    ensures
        forall|u: Address, t: Token| #[trigger]
            amount_in(s1, u, t) == amount_in(s, u, t) - credited(u, t, user, token, amount as int),
        forall|t: Token| #[trigger]
            total(s1, t) == total(s, t) - (if t == token {
                amount as int
            } else {
                0
            }),
{
    let v = (amount_in(s, user, token) - amount) as u128;
    assert forall|u: Address, t: Token| #[trigger]
        amount_in(s1, u, t) == amount_in(s, u, t) - credited(u, t, user, token, amount as int) by {
        lemma_balance_with_amount(s, user, token, v, u);
    }
    assert forall|t: Token| #[trigger]
        total(s1, t) == total(s, t) - (if t == token {
            amount as int
        } else {
            0
        }) by {
        lemma_total_with_amount(s, user, token, v, t);
    }
}

/// A successful move takes `amount` of `token` from `from`, gives it to `to`, and
/// keeps every total.
pub proof fn lemma_transfer_effect(
    s: Seq<(Address, Balance)>,
    from: Address,
    to: Address,
    token: Token,
    amount: u128,
    s2: Seq<(Address, Balance)>,
)
    requires
        transfer_outcome(s, from, to, token, amount) == Ok::<Seq<(Address, Balance)>, PoolError>(s2),
    ensures
        forall|u: Address, t: Token| #[trigger]
            amount_in(s2, u, t) == amount_in(s, u, t) + credited(u, t, to, token, amount as int)
                - credited(u, t, from, token, amount as int),
        forall|t: Token| #[trigger] total(s2, t) == total(s, t),
{
    let s1 = withdraw_outcome(s, from, token, amount)->Ok_0;
    lemma_withdraw_effect(s, from, token, amount, s1);
    lemma_deposit_effect(s1, to, token, amount, s2);
}

/// Per-holder balances of the two tokens of a pool and of its liquidity shares,
/// with the addresses of the two tokens.
pub struct PairwiseTokenBalances {
    pub token_a: Address,
    pub token_b: Address,
    pub balances: Vec<(Address, Balance)>,
}

impl PairwiseTokenBalances {
    /// The entries of the ledger.
    pub open spec fn entries(&self) -> Seq<(Address, Balance)> {
        self.balances@
    }

    /// An empty ledger for the tokens at `token_a` and `token_b`.
    pub fn new(token_a: Address, token_b: Address) -> (r: Self)
        ensures
            r.token_a == token_a,
            r.token_b == token_b,
            r.entries() == Seq::<(Address, Balance)>::empty(),
    {
        PairwiseTokenBalances { token_a, token_b, balances: Vec::new() }
    }

    /// A copy of this ledger.
    pub fn duplicate(&self) -> (r: Self)
        ensures
            r.token_a == self.token_a,
            r.token_b == self.token_b,
            r.entries() == self.entries(),
    {
        let mut balances: Vec<(Address, Balance)> = Vec::new();
        let mut i: usize = 0;
        while i < self.balances.len()
            invariant
                0 <= i <= self.balances.len(),
                balances@ == self.balances@.subrange(0, i as int),
            decreases self.balances.len() - i,
        {
            balances.push(self.balances[i]);
            i = i + 1;
        }
        assert(balances@ =~= self.balances@);
        PairwiseTokenBalances { token_a: self.token_a, token_b: self.token_b, balances }
    }

    fn find(&self, user: &Address) -> (r: Option<usize>)
        ensures
            r matches Some(i) ==> i == index_of(self.entries(), *user),
            r is None ==> index_of(self.entries(), *user) == -1,
    {
        let mut i: usize = self.balances.len();
        while i > 0
            invariant
                i <= self.balances.len(),
                index_below(self.entries(), *user, i as int) == index_of(self.entries(), *user),
            decreases i,
        {
            if self.balances[i - 1].0 == *user {
                return Some(i - 1);
            }
            i = i - 1;
        }
        None
    }

    /// What `user` holds; nothing for a holder without an entry.
    pub fn get_balance(&self, user: &Address) -> (r: Balance)
        ensures
            r == balance_in(self.entries(), *user),
    {
        proof {
            lemma_index_of_range(self.entries(), *user);
        }
        match self.find(user) {
            Some(i) => self.balances[i].1,
            None => Balance::empty(),
        }
    }

    fn set_amount(&mut self, user: Address, token: Token, value: u128)
        ensures
            final(self).entries() == with_amount_in(old(self).entries(), user, token, value),
            final(self).token_a == old(self).token_a,
            final(self).token_b == old(self).token_b,
    {
        proof {
            lemma_index_of_range(self.entries(), user);
        }
        match self.find(&user) {
            Some(i) => {
                let mut b = self.balances[i].1;
                b.set_for_token(token, value);
                self.balances.set(i, (user, b));
            },
            None => {
                let mut b = Balance::empty();
                b.set_for_token(token, value);
                self.balances.push((user, b));
            },
        }
    }

    /// Adds `amount` of `token` to `user`'s balance, creating the entry if needed.
    pub fn deposit_to_user_balance(&mut self, user: Address, token: Token, amount: u128) -> (r:
        Result<(), PoolError>)
        ensures
            final(self).token_a == old(self).token_a,
            final(self).token_b == old(self).token_b,
            match deposit_outcome(old(self).entries(), user, token, amount) {
                Ok(s) => r is Ok && final(self).entries() == s,
                Err(e) => r == Err::<(), PoolError>(e) && final(self).entries() == old(
                    self,
                ).entries(),
            },
    {
        let held = self.get_balance(&user).for_token(token);
        match held.checked_add(amount) {
            Some(v) => {
                self.set_amount(user, token, v);
                Ok(())
            },
            None => Err(PoolError::Overflow),
        }
    }

    /// Subtracts `amount` of `token` from `user`'s balance.
    pub fn withdraw_from_user_balance(&mut self, user: &Address, token: Token, amount: u128) -> (r:
        Result<(), PoolError>)
        ensures
            final(self).token_a == old(self).token_a,
            final(self).token_b == old(self).token_b,
            match withdraw_outcome(old(self).entries(), *user, token, amount) {
                Ok(s) => r is Ok && final(self).entries() == s,
                Err(e) => r == Err::<(), PoolError>(e) && final(self).entries() == old(
                    self,
                ).entries(),
            },
    {
        let held = self.get_balance(user).for_token(token);
        match held.checked_sub(amount) {
            Some(v) => {
                self.set_amount(*user, token, v);
                Ok(())
            },
            None => Err(PoolError::InsufficientBalance),
        }
    }

    /// Moves `amount` of `token` from `from` to `to`, all or nothing.
    pub fn transfer_from_to(&mut self, from: &Address, to: Address, token: Token, amount: u128) -> (r:
        Result<(), PoolError>)
        ensures
            final(self).token_a == old(self).token_a,
            final(self).token_b == old(self).token_b,
            match transfer_outcome(old(self).entries(), *from, to, token, amount) {
                Ok(s) => r is Ok && final(self).entries() == s,
                Err(e) => r == Err::<(), PoolError>(e) && final(self).entries() == old(
                    self,
                ).entries(),
            },
    {
        let held_from = self.get_balance(from).for_token(token);
        if held_from < amount {
            return Err(PoolError::InsufficientBalance);
        }
        let ghost s1 = with_amount_in(self.entries(), *from, token, (held_from - amount) as u128);
        proof {
            lemma_balance_with_amount(self.entries(), *from, token, (held_from - amount) as u128, to);
        }
        let held_to = if *from == to {
            held_from - amount
        } else {
            self.get_balance(&to).for_token(token)
        };
        assert(held_to == amount_in(s1, to, token));
        if held_to > u128::MAX - amount {
            return Err(PoolError::Overflow);
        }
        self.set_amount(*from, token, held_from - amount);
        self.set_amount(to, token, held_to + amount);
        Ok(())
    }

    /// The token pair `(in, out)` for a token address: `None` when the address is
    /// neither of the two tokens.
    pub fn deduce_from_to_tokens(&self, input_token_address: &Address) -> (r: Option<(Token, Token)>)
        ensures
            r == token_pair(self.token_a, self.token_b, *input_token_address),
    {
        let is_from_a = self.token_a == *input_token_address;
        let is_from_b = self.token_b == *input_token_address;
        if !is_from_a && !is_from_b {
            return None;
        }
        Some(self.deduce_from_to_tokens_b(is_from_a))
    }

    /// The token pair `(in, out)` for a swap out of token A, or out of token B.
    pub fn deduce_from_to_tokens_b(&self, is_from_a: bool) -> (r: (Token, Token))
        ensures
            r == (if is_from_a {
                (Token::A, Token::B)
            } else {
                (Token::B, Token::A)
            }),
    {
        if is_from_a {
            (Token::A, Token::B)
        } else {
            (Token::B, Token::A)
        }
    }
}

/// The token pair `(in, out)` that `address` names among `token_a` and `token_b`.
pub open spec fn token_pair(token_a: Address, token_b: Address, address: Address) -> Option<(Token, Token)> {
    if address == token_a {
        Some((Token::A, Token::B))
    } else if address == token_b {
        Some((Token::B, Token::A))
    } else {
        None
    }
}

} // verus!
