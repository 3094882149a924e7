//! The account ledger: the account-to-balance mapping and the total
//! supply, together with the conservation invariant that ties them.
//!
//! An account is a key of the mapping; absence of a key means
//! "unregistered", which is distinct from a registered account with
//! balance zero. At all times the total supply equals the sum of all
//! registered balances.

use vstd::prelude::*;

use crate::error::TokenError;

verus! {

/// The sum of a sequence of balances, as an unbounded integer.
pub open spec fn sum_balances(s: Seq<u128>) -> int
    decreases s.len(),
{
    if s.len() == 0 {
        0
    } else {
        s[0] + sum_balances(s.drop_first())
    }
}

/// The index of the first occurrence of `a` among `keys`, or -1 when
/// `a` does not occur.
pub open spec fn find_key(keys: Seq<Seq<char>>, a: Seq<char>) -> int
    decreases keys.len(),
{
    if keys.len() == 0 {
        -1
    } else if keys[0] == a {
        0
    } else {
        let r = find_key(keys.drop_first(), a);
        if r < 0 {
            -1
        } else {
            r + 1
        }
    }
}

/// The mathematical state of a ledger: the registered account names,
/// their balances (position by position), and the total supply.
pub ghost struct LedgerModel {
    pub keys: Seq<Seq<char>>,
    pub bals: Seq<u128>,
    pub total: u128,
}

/// Whether account `a` is registered in the ledger.
pub open spec fn registered(m: LedgerModel, a: Seq<char>) -> bool {
    find_key(m.keys, a) >= 0
}

/// The balance of account `a`: its ledger entry, or zero when `a` is
/// unregistered.
pub open spec fn bal(m: LedgerModel, a: Seq<char>) -> u128 {
    if registered(m, a) {
        m.bals[find_key(m.keys, a)]
    } else {
        0
    }
}

/// Well-formedness of a ledger: one balance per account, no account
/// listed twice, and the total supply equal to the sum of all balances.
pub open spec fn ledger_wf(m: LedgerModel) -> bool {
    &&& m.keys.len() == m.bals.len()
    &&& forall|i: int, j: int| 0 <= i < j < m.keys.len() ==> m.keys[i] != m.keys[j]
    &&& m.total == sum_balances(m.bals)
}

/// Conservation: in every well-formed ledger the total supply equals
/// the sum of all registered balances.
pub proof fn lemma_conservation(m: LedgerModel)
    requires
        ledger_wf(m),
    ensures
        m.total == sum_balances(m.bals),
{
}

/// Bound: in a well-formed ledger no single balance exceeds the total
/// supply, so every balance fits the unsigned 128-bit range the total
/// supply lives in.
pub proof fn lemma_balance_bounded(m: LedgerModel, a: Seq<char>)
    requires
        ledger_wf(m),
    ensures
        bal(m, a) <= m.total,
{
    if registered(m, a) {
        lemma_find_key_props(m.keys, a);
        lemma_sum_le(m.bals, find_key(m.keys, a));
    }
}

proof fn lemma_find_key_props(keys: Seq<Seq<char>>, a: Seq<char>)
    ensures
        -1 <= find_key(keys, a) < keys.len(),
        find_key(keys, a) >= 0 ==> keys[find_key(keys, a)] == a,
    decreases keys.len(),
{
    if keys.len() == 0 {
    } else if keys[0] == a {
    } else {
        lemma_find_key_props(keys.drop_first(), a);
    }
}

proof fn lemma_find_key_present(keys: Seq<Seq<char>>, a: Seq<char>, k: int)
    requires
        0 <= k < keys.len(),
        keys[k] == a,
    ensures
        find_key(keys, a) >= 0,
    decreases keys.len(),
{
    if keys[0] == a {
    } else {
        assert(keys.drop_first()[k - 1] == a);
        lemma_find_key_present(keys.drop_first(), a, k - 1);
    }
}

proof fn lemma_find_key_first(keys: Seq<Seq<char>>, a: Seq<char>, i: int)
    requires
        0 <= i < keys.len(),
        keys[i] == a,
        forall|k: int| 0 <= k < i ==> keys[k] != a,
    ensures
        find_key(keys, a) == i,
    decreases keys.len(),
{
    if i == 0 {
    } else {
        assert(keys[0] != a);
        assert forall|k: int| 0 <= k < i - 1 implies keys.drop_first()[k] != a by {
            assert(keys.drop_first()[k] == keys[k + 1]);
        }
        assert(keys.drop_first()[i - 1] == a);
        lemma_find_key_first(keys.drop_first(), a, i - 1);
    }
}

proof fn lemma_find_key_push(keys: Seq<Seq<char>>, c: Seq<char>, a: Seq<char>)
    ensures
        find_key(keys.push(c), a) == (if find_key(keys, a) >= 0 {
            find_key(keys, a)
        } else if a == c {
            keys.len() as int
        } else {
            -1
        }),
    decreases keys.len(),
{
    if keys.len() == 0 {
        assert(keys.push(c)[0] == c);
        assert(keys.push(c).drop_first() =~= Seq::<Seq<char>>::empty());
        assert(find_key(Seq::<Seq<char>>::empty(), a) == -1);
    } else {
        assert(keys.push(c)[0] == keys[0]);
        if keys[0] == a {
        } else {
            assert(keys.push(c).drop_first() =~= keys.drop_first().push(c));
            lemma_find_key_push(keys.drop_first(), c, a);
        }
    }
}

proof fn lemma_find_key_remove(keys: Seq<Seq<char>>, i: int, a: Seq<char>)
    requires
        0 <= i < keys.len(),
        forall|p: int, q: int| 0 <= p < q < keys.len() ==> keys[p] != keys[q],
    ensures
        find_key(keys.remove(i), a) == (if a == keys[i] {
            -1
        } else if find_key(keys, a) < i {
            find_key(keys, a)
        } else {
            find_key(keys, a) - 1
        }),
    decreases keys.len(),
{
    lemma_find_key_props(keys, a);
    if i == 0 {
        assert(keys.remove(0) =~= keys.drop_first());
        if a == keys[0] {
            lemma_find_key_props(keys.drop_first(), a);
            if find_key(keys.drop_first(), a) >= 0 {
                let fk = find_key(keys.drop_first(), a);
                assert(keys.drop_first()[fk] == keys[fk + 1]);
                assert(false);
            }
        }
    } else {
        assert(keys.remove(i)[0] == keys[0]);
        if keys[0] == a {
        } else {
            assert(keys.remove(i).drop_first() =~= keys.drop_first().remove(i - 1));
            assert forall|p: int, q: int|
                0 <= p < q < keys.drop_first().len() implies keys.drop_first()[p]
                != keys.drop_first()[q] by {
                assert(keys.drop_first()[p] == keys[p + 1]);
                assert(keys.drop_first()[q] == keys[q + 1]);
            }
            lemma_find_key_remove(keys.drop_first(), i - 1, a);
        }
    }
}

proof fn lemma_sum_nonneg(s: Seq<u128>)
    ensures
        sum_balances(s) >= 0,
    decreases s.len(),
{
    if s.len() != 0 {
        lemma_sum_nonneg(s.drop_first());
    }
}

proof fn lemma_sum_le(s: Seq<u128>, i: int)
    requires
        0 <= i < s.len(),
    ensures
        s[i] <= sum_balances(s),
    decreases s.len(),
{
    if i == 0 {
        lemma_sum_nonneg(s.drop_first());
    } else {
        lemma_sum_le(s.drop_first(), i - 1);
        assert(s.drop_first()[i - 1] == s[i]);
    }
}

proof fn lemma_sum_update(s: Seq<u128>, i: int, v: u128)
    requires
        0 <= i < s.len(),
    ensures
        sum_balances(s.update(i, v)) == sum_balances(s) - s[i] + v,
    decreases s.len(),
{
    if i == 0 {
        assert(s.update(0, v)[0] == v);
        assert(s.update(0, v).drop_first() =~= s.drop_first());
    } else {
        assert(s.update(i, v)[0] == s[0]);
        assert(s.update(i, v).drop_first() =~= s.drop_first().update(i - 1, v));
        lemma_sum_update(s.drop_first(), i - 1, v);
    }
}

proof fn lemma_sum_push(s: Seq<u128>, v: u128)
    ensures
        sum_balances(s.push(v)) == sum_balances(s) + v,
    decreases s.len(),
{
    if s.len() == 0 {
        assert(s.push(v)[0] == v);
        assert(s.push(v).drop_first() =~= Seq::<u128>::empty());
        assert(sum_balances(Seq::<u128>::empty()) == 0);
    } else {
        assert(s.push(v)[0] == s[0]);
        assert(s.push(v).drop_first() =~= s.drop_first().push(v));
        lemma_sum_push(s.drop_first(), v);
    }
}

proof fn lemma_sum_remove(s: Seq<u128>, i: int)
    requires
        0 <= i < s.len(),
    ensures
        sum_balances(s.remove(i)) == sum_balances(s) - s[i],
    decreases s.len(),
{
    if i == 0 {
        assert(s.remove(0) =~= s.drop_first());
    } else {
        assert(s.remove(i)[0] == s[0]);
        assert(s.remove(i).drop_first() =~= s.drop_first().remove(i - 1));
        lemma_sum_remove(s.drop_first(), i - 1);
    }
}

/// The ledger: account names and balances, position by position, and
/// the running total supply.
pub struct Ledger {
    accounts: Vec<String>,
    balances: Vec<u128>,
    total_supply: u128,
}

impl View for Ledger {
    type V = LedgerModel;

    closed spec fn view(&self) -> LedgerModel {
        LedgerModel {
            keys: self.accounts@.map_values(|s: String| s@),
            bals: self.balances@,
            total: self.total_supply,
        }
    }
}

impl Ledger {
    /// An empty ledger: no accounts, total supply zero.
    pub fn new() -> (l: Ledger)
        ensures
            ledger_wf(l@),
            l@.total == 0,
            forall|a: Seq<char>| !registered(l@, a),
    {
        let l = Ledger { accounts: Vec::new(), balances: Vec::new(), total_supply: 0 };
        proof {
            assert(l@.keys =~= Seq::<Seq<char>>::empty());
            assert(l@.bals =~= Seq::<u128>::empty());
        }
        l
    }

    /// The current total supply.
    pub fn total_supply(&self) -> (r: u128)
        ensures
            r == self@.total,
    {
        self.total_supply
    }

    /// The position of account `a` in the ledger, when it has one.
    fn find(&self, a: &String) -> (r: Option<usize>)
        ensures
            match r {
                Some(i) => {
                    &&& 0 <= i < self@.keys.len()
                    &&& self@.keys[i as int] == a@
                    &&& find_key(self@.keys, a@) == i
                },
                None => find_key(self@.keys, a@) == -1,
            },
    {
        let n = self.accounts.len();
        let mut i: usize = 0;
        while i < n
            invariant
                n == self.accounts@.len(),
                i <= n,
                forall|k: int| 0 <= k < i ==> self@.keys[k] != a@,
            decreases n - i,
        {
            proof {
                assert(self@.keys[i as int] == self.accounts@[i as int]@);
            }
            if self.accounts[i] == *a {
                proof {
                    lemma_find_key_first(self@.keys, a@, i as int);
                }
                return Some(i);
            }
            i = i + 1;
        }
        proof {
            lemma_find_key_props(self@.keys, a@);
        }
        None
    }

    /// Whether account `a` is registered.
    pub fn is_registered(&self, a: &String) -> (r: bool)
        ensures
            r == registered(self@, a@),
    {
        match self.find(a) {
            Some(_) => true,
            None => false,
        }
    }

    /// The balance of account `a`, or zero when `a` is unregistered.
    pub fn balance_of(&self, a: &String) -> (r: u128)
        requires
            ledger_wf(self@),
        ensures
            r == bal(self@, a@),
    {
        match self.find(a) {
            Some(i) => self.balances[i],
            None => 0,
        }
    }

    /// Creates a zero-balance entry for a fresh account. The total
    /// supply and every other balance are untouched.
    pub fn register_entry(&mut self, a: &String)
        requires
            ledger_wf(old(self)@),
            !registered(old(self)@, a@),
        ensures
            ledger_wf(final(self)@),
            final(self)@.total == old(self)@.total,
            registered(final(self)@, a@),
            bal(final(self)@, a@) == 0,
            forall|b: Seq<char>|
                b != a@ ==> registered(final(self)@, b) == registered(old(self)@, b),
            forall|b: Seq<char>| b != a@ ==> bal(final(self)@, b) == bal(old(self)@, b),
    {
        let ghost m = self@;
        self.accounts.push(a.clone());
        self.balances.push(0);
        proof {
            assert(self@.keys =~= m.keys.push(a@));
            lemma_sum_push(m.bals, 0);
            lemma_find_key_push(m.keys, a@, a@);
            assert forall|p: int, q: int|
                0 <= p < q < self@.keys.len() implies self@.keys[p] != self@.keys[q] by {
                if q == m.keys.len() {
                    if m.keys[p] == a@ {
                        lemma_find_key_present(m.keys, a@, p);
                    }
                }
            }
            assert forall|b: Seq<char>| b != a@ implies registered(self@, b) == registered(m, b)
                && bal(self@, b) == bal(m, b) by {
                lemma_find_key_push(m.keys, a@, b);
                lemma_find_key_props(m.keys, b);
            }
        }
    }

    /// Removes the entry of a registered account whose balance is zero.
    /// The total supply and every other balance are untouched.
    pub fn remove_entry(&mut self, a: &String)
        requires
            ledger_wf(old(self)@),
            registered(old(self)@, a@),
            bal(old(self)@, a@) == 0,
        ensures
            ledger_wf(final(self)@),
            final(self)@.total == old(self)@.total,
            !registered(final(self)@, a@),
            forall|b: Seq<char>|
                b != a@ ==> registered(final(self)@, b) == registered(old(self)@, b),
            forall|b: Seq<char>| b != a@ ==> bal(final(self)@, b) == bal(old(self)@, b),
    {
        let ghost m = self@;
        let i = match self.find(a) {
            Some(i) => i,
            None => {
                proof {
                    assert(false);
                }
                0
            },
        };
        self.accounts.remove(i);
        self.balances.remove(i);
        proof {
            assert(self@.keys =~= m.keys.remove(i as int));
            lemma_sum_remove(m.bals, i as int);
            lemma_find_key_remove(m.keys, i as int, a@);
            assert forall|p: int, q: int|
                0 <= p < q < self@.keys.len() implies self@.keys[p] != self@.keys[q] by {
                if q < i {
                    assert(m.keys[p] != m.keys[q]);
                } else if p < i {
                    assert(m.keys[p] != m.keys[q + 1]);
                } else {
                    assert(m.keys[p + 1] != m.keys[q + 1]);
                }
            }
            assert forall|b: Seq<char>| b != a@ implies registered(self@, b) == registered(m, b)
                && bal(self@, b) == bal(m, b) by {
                lemma_find_key_remove(m.keys, i as int, b);
                lemma_find_key_props(m.keys, b);
            }
        }
    }

    /// Increases the balance of a registered account and the total
    /// supply by `amount`. Used by initialization and minting (supply
    /// increasing) and by a transfer's receive side (after the matching
    /// debit, so supply neutral over the pair).
    pub fn credit(&mut self, a: &String, amount: u128)
        requires
            ledger_wf(old(self)@),
            registered(old(self)@, a@),
            old(self)@.total + amount <= u128::MAX,
        ensures
            ledger_wf(final(self)@),
            final(self)@.total == old(self)@.total + amount,
            final(self)@.keys == old(self)@.keys,
            bal(final(self)@, a@) == bal(old(self)@, a@) + amount,
            forall|b: Seq<char>| registered(final(self)@, b) == registered(old(self)@, b),
            forall|b: Seq<char>| b != a@ ==> bal(final(self)@, b) == bal(old(self)@, b),
    {
        let ghost m = self@;
        let i = match self.find(a) {
            Some(i) => i,
            None => {
                proof {
                    assert(false);
                }
                0
            },
        };
        proof {
            lemma_sum_le(m.bals, i as int);
        }
        let b = self.balances[i];
        self.balances[i] = b + amount;
        self.total_supply = self.total_supply + amount;
        proof {
            assert(self@.keys =~= m.keys);
            lemma_sum_update(m.bals, i as int, (b + amount) as u128);
            assert forall|b2: Seq<char>| b2 != a@ implies bal(self@, b2) == bal(m, b2) by {
                lemma_find_key_props(m.keys, b2);
            }
        }
    }

    /// Decreases the balance of account `a` and the total supply by
    /// `amount`; refused with `InsufficientBalance` when `a` is
    /// unregistered or its balance does not cover `amount`. Used by a
    /// transfer's send side and by the burning exit paths.
    pub fn debit(&mut self, a: &String, amount: u128) -> (r: Result<(), TokenError>)
        requires
            ledger_wf(old(self)@),
        ensures
            ledger_wf(final(self)@),
            !registered(old(self)@, a@) || bal(old(self)@, a@) < amount ==> {
                &&& r == Result::<(), TokenError>::Err(TokenError::InsufficientBalance)
                &&& *final(self) == *old(self)
            },
            registered(old(self)@, a@) && bal(old(self)@, a@) >= amount ==> {
                &&& r == Result::<(), TokenError>::Ok(())
                &&& final(self)@.total == old(self)@.total - amount
                &&& final(self)@.keys == old(self)@.keys
                &&& bal(final(self)@, a@) == bal(old(self)@, a@) - amount
                &&& forall|b: Seq<char>|
                    registered(final(self)@, b) == registered(old(self)@, b)
                &&& forall|b: Seq<char>| b != a@ ==> bal(final(self)@, b) == bal(old(self)@, b)
            },
    {
        let ghost m = self@;
        let i = match self.find(a) {
            Some(i) => i,
            None => {
                return Err(TokenError::InsufficientBalance);
            },
        };
        let b = self.balances[i];
        if b < amount {
            return Err(TokenError::InsufficientBalance);
        }
        proof {
            lemma_sum_le(m.bals, i as int);
        }
        self.balances[i] = b - amount;
        self.total_supply = self.total_supply - amount;
        proof {
            assert(self@.keys =~= m.keys);
            lemma_sum_update(m.bals, i as int, (b - amount) as u128);
            assert forall|b2: Seq<char>| b2 != a@ implies bal(self@, b2) == bal(m, b2) by {
                lemma_find_key_props(m.keys, b2);
            }
        }
        Ok(())
    }
}

} // verus!
