use vstd::prelude::*;

use crate::pubkey::Pubkey;

verus! {

/// The lamport balances of a set of accounts: one entry, address and
/// balance, per account.
pub struct LedgerView {
    pub entries: Seq<(Seq<u8>, u64)>,
}

/// The position of `key` among `keys` (one of them, where it occurs).
pub open spec fn position_of(keys: Seq<Seq<u8>>, key: Seq<u8>) -> int {
    choose|i: int| 0 <= i < keys.len() && keys[i] == key
}

/// The sum of the balances of `entries`.
pub open spec fn sum_balances(entries: Seq<(Seq<u8>, u64)>) -> int
    decreases entries.len(),
{
    if entries.len() == 0 {
        0
    } else {
        sum_balances(entries.drop_last()) + entries.last().1
    }
}

impl LedgerView {
    pub open spec fn keys(self) -> Seq<Seq<u8>> {
        self.entries.map_values(|e: (Seq<u8>, u64)| e.0)
    }

    pub open spec fn contains(self, key: Seq<u8>) -> bool {
        self.keys().contains(key)
    }

    pub open spec fn position(self, key: Seq<u8>) -> int {
        position_of(self.keys(), key)
    }

    /// The balance of the account `key`.
    pub open spec fn balance(self, key: Seq<u8>) -> u64 {
        self.entries[self.position(key)].1
    }

    /// The ledger with the balance of `key` set to `lamports`.
    pub open spec fn with_balance(self, key: Seq<u8>, lamports: u64) -> LedgerView {
        LedgerView { entries: self.entries.update(self.position(key), (key, lamports)) }
    }

    /// All lamports that the ledger holds.
    pub open spec fn total(self) -> int {
        sum_balances(self.entries)
    }

    /// No address occurs twice.
    pub open spec fn distinct(self) -> bool {
        forall|i: int, j: int|
            0 <= i < j < self.entries.len() ==> #[trigger] self.entries[i].0 != #[trigger] self.entries[j].0
    }
}

/// What moving `amount` lamports from `from` to `to` makes of the ledger `v`:
/// the sender is debited first and the receiver credited after, so that an
/// account that pays itself keeps its balance. `None` where the move aborts:
/// an account is not in the ledger, the sender holds less than `amount`, or
/// the receiver's balance would pass `u64::MAX`.
pub open spec fn transfer_spec(v: LedgerView, from: Seq<u8>, to: Seq<u8>, amount: int) -> Option<LedgerView> {
    if !v.contains(from) || !v.contains(to) || amount < 0 || amount > v.balance(from) {
        None
    } else {
        let debited = v.with_balance(from, (v.balance(from) - amount) as u64);
        if debited.balance(to) + amount > u64::MAX {
            None
        } else {
            Some(debited.with_balance(to, (debited.balance(to) + amount) as u64))
        }
    }
}

proof fn lemma_sum_update(s: Seq<(Seq<u8>, u64)>, i: int, e: (Seq<u8>, u64))
    requires
        0 <= i < s.len(),
    ensures
        sum_balances(s.update(i, e)) == sum_balances(s) - s[i].1 + e.1,
    decreases s.len(),
{
    let t = s.update(i, e);
    if i == s.len() - 1 {
        assert(t.drop_last() =~= s.drop_last());
    } else {
        lemma_sum_update(s.drop_last(), i, e);
        assert(t.drop_last() =~= s.drop_last().update(i, e));
    }
}

/// Setting the balance of an account of the ledger changes that balance and
/// the total by the difference, and nothing else.
pub proof fn lemma_with_balance(v: LedgerView, key: Seq<u8>, lamports: u64)
    requires
        v.contains(key),
    ensures
        0 <= v.position(key) < v.entries.len(),
        v.entries[v.position(key)].0 == key,
        v.with_balance(key, lamports).keys() == v.keys(),
        v.with_balance(key, lamports).entries.len() == v.entries.len(),
        v.with_balance(key, lamports).balance(key) == lamports,
        v.with_balance(key, lamports).total() == v.total() - v.balance(key) + lamports,
        forall|k: Seq<u8>|
            v.contains(k) && k != key ==> #[trigger] v.with_balance(key, lamports).balance(k)
                == v.balance(k),
{
    let w = v.with_balance(key, lamports);
    assert(v.keys()[v.position(key)] == key);
    assert(w.keys() =~= v.keys());
    lemma_sum_update(v.entries, v.position(key), (key, lamports));
    assert forall|k: Seq<u8>| v.contains(k) && k != key implies #[trigger] w.balance(k)
        == v.balance(k) by {
        let q = v.position(k);
        assert(v.keys()[q] == k);
    }
}

/// A transfer moves lamports and creates none: where it goes through, the
/// ledger holds as many lamports after as before, and the same accounts.
pub proof fn lemma_transfer_conserves(v: LedgerView, from: Seq<u8>, to: Seq<u8>, amount: int)
    ensures
        transfer_spec(v, from, to, amount) matches Some(w) ==> {
            &&& w.total() == v.total()
            &&& w.keys() == v.keys()
        },
{
    if transfer_spec(v, from, to, amount) is Some {
        let debited = v.with_balance(from, (v.balance(from) - amount) as u64);
        lemma_with_balance(v, from, (v.balance(from) - amount) as u64);
        assert(debited.contains(to));
        lemma_with_balance(debited, to, (debited.balance(to) + amount) as u64);
    }
}

/// The lamport balances of the accounts that an instruction touches.
pub struct Ledger {
    accounts: Vec<(Pubkey, u64)>,
}

impl View for Ledger {
    type V = LedgerView;

    closed spec fn view(&self) -> LedgerView {
        LedgerView { entries: self.accounts@.map_values(|a: (Pubkey, u64)| (a.0@, a.1)) }
    }
}

impl Ledger {
    #[verifier::type_invariant]
    spec fn no_duplicates(self) -> bool {
        self@.distinct()
    }

    /// An empty ledger.
    pub fn new() -> (ledger: Ledger)
        ensures
            ledger@.entries == Seq::<(Seq<u8>, u64)>::empty(),
            ledger@.distinct(),
    {
        let ledger = Ledger { accounts: Vec::new() };
        assert(ledger@.entries =~= Seq::<(Seq<u8>, u64)>::empty());
        ledger
    }

    /// The position of `key` in the ledger, if it is there.
    fn find(&self, key: &Pubkey) -> (r: Option<usize>)
        ensures
            match r {
                Some(i) => self@.contains(key@) && i == self@.position(key@) && i < self@.entries.len(),
                None => !self@.contains(key@),
            },
    {
        proof {
            use_type_invariant(self);
        }
        let n = self.accounts.len();
        let mut i: usize = 0;
        while i < n
            invariant
                n == self.accounts.len(),
                self@.entries.len() == n,
                self@.distinct(),
                0 <= i <= n,
                forall|j: int| 0 <= j < i ==> self@.keys()[j] != key@,
            decreases n - i,
        {
            if self.accounts[i].0.same(key) {
                proof {
                    let keys = self@.keys();
                    assert(keys[i as int] == key@);
                    assert(self@.contains(key@));
                    let p = self@.position(key@);
                    assert(0 <= p < self@.entries.len() && keys[p] == key@);
                    assert(self@.entries[p].0 == keys[p]);
                    assert(self@.entries[i as int].0 == keys[i as int]);
                    if p != i as int {
                        if p < i as int {
                            assert(self@.entries[p].0 != self@.entries[i as int].0);
                        } else {
                            assert(self@.entries[i as int].0 != self@.entries[p].0);
                        }
                    }
                }
                return Some(i);
            }
            i = i + 1;
        }
        None
    }

    /// Adds the account `key` with `lamports`, unless the ledger has it
    /// already.
    pub fn add_account(&mut self, key: Pubkey, lamports: u64) -> (added: bool)
        ensures
            added == !old(self)@.contains(key@),
            final(self)@.distinct(),
            added ==> final(self)@.entries == old(self)@.entries.push((key@, lamports)),
            !added ==> final(self)@ == old(self)@,
    {
        match self.find(&key) {
            Some(_) => {
                proof {
                    use_type_invariant(&*self);
                }
                false
            },
            None => {
                proof {
                    use_type_invariant(&*self);
                }
                let ghost before = self@;
                let mut accounts: Vec<(Pubkey, u64)> = Vec::new();
                std::mem::swap(&mut accounts, &mut self.accounts);
                accounts.push((key, lamports));
                let ghost after = LedgerView {
                    entries: accounts@.map_values(|a: (Pubkey, u64)| (a.0@, a.1)),
                };
                assert(after.entries =~= before.entries.push((key@, lamports)));
                assert forall|i: int, j: int|
                    0 <= i < j < after.entries.len() implies #[trigger] after.entries[i].0
                        != #[trigger] after.entries[j].0 by {
                    if j == before.entries.len() {
                        assert(before.keys()[i] == before.entries[i].0);
                    }
                }
                self.accounts = accounts;
                proof {
                    use_type_invariant(&*self);
                }
                true
            }
        }
    }

    /// The balance of the account `key`, if the ledger has it.
    pub fn lamports_of(&self, key: &Pubkey) -> (r: Option<u64>)
        ensures
            r == (if self@.contains(key@) { Some(self@.balance(key@)) } else { None::<u64> }),
    {
        match self.find(key) {
            Some(i) => Some(self.accounts[i].1),
            None => None,
        }
    }

    /// A copy of the ledger.
    pub fn duplicate(&self) -> (r: Ledger)
        ensures
            r@ == self@,
    {
        proof {
            use_type_invariant(self);
        }
        let mut accounts: Vec<(Pubkey, u64)> = Vec::new();
        let n = self.accounts.len();
        let mut i: usize = 0;
        while i < n
            invariant
                n == self.accounts.len(),
                0 <= i <= n,
                accounts@.len() == i,
                forall|j: int| 0 <= j < i ==> accounts@[j] == self.accounts@[j],
            decreases n - i,
        {
            let a = self.accounts[i];
            accounts.push((a.0, a.1));
            i = i + 1;
        }
        assert(accounts@ =~= self.accounts@);
        Ledger { accounts }
    }

    /// Sets the balance at position `i`.
    fn set_at(&mut self, i: usize, lamports: u64)
        requires
            i < old(self)@.entries.len(),
        ensures
            final(self)@.entries == old(self)@.entries.update(i as int, (old(self)@.entries[i as int].0, lamports)),
    {
        proof {
            use_type_invariant(&*self);
        }
        let ghost before = self@;
        let key = self.accounts[i].0;
        let mut accounts: Vec<(Pubkey, u64)> = Vec::new();
        std::mem::swap(&mut accounts, &mut self.accounts);
        accounts.set(i, (key, lamports));
        let ghost after = LedgerView {
            entries: accounts@.map_values(|a: (Pubkey, u64)| (a.0@, a.1)),
        };
        assert(after.entries =~= before.entries.update(i as int, (before.entries[i as int].0, lamports)));
        assert forall|a: int, b: int|
            0 <= a < b < after.entries.len() implies #[trigger] after.entries[a].0
                != #[trigger] after.entries[b].0 by {
            assert(after.entries[a].0 == before.entries[a].0);
            assert(after.entries[b].0 == before.entries[b].0);
        }
        self.accounts = accounts;
    }

    /// Moves `amount` lamports from `from` to `to` (see `transfer_spec`);
    /// `false`, with the ledger unchanged, where the move aborts.
    pub fn transfer(&mut self, from: &Pubkey, to: &Pubkey, amount: u64) -> (ok: bool)
        ensures
            match transfer_spec(old(self)@, from@, to@, amount as int) {
                Some(w) => ok && final(self)@ == w,
                None => !ok && final(self)@ == old(self)@,
            },
            final(self)@.distinct(),
    {
        proof {
            use_type_invariant(&*self);
        }
        let ghost v = self@;
        let i = match self.find(from) {
            Some(i) => i,
            None => return false,
        };
        let j = match self.find(to) {
            Some(j) => j,
            None => return false,
        };
        let from_balance = self.accounts[i].1;
        if amount > from_balance {
            return false;
        }
        proof {
            lemma_with_balance(v, from@, (from_balance - amount) as u64);
        }
        let to_balance = if i == j { from_balance - amount } else { self.accounts[j].1 };
        let ghost debited = v.with_balance(from@, (from_balance - amount) as u64);
        assert(debited.position(to@) == j);
        assert(debited.balance(to@) == to_balance);
        if to_balance > u64::MAX - amount {
            return false;
        }
        self.set_at(i, from_balance - amount);
        assert(self@ == debited);
        self.set_at(j, to_balance + amount);
        assert(self@.entries =~= debited.with_balance(to@, (to_balance + amount) as u64).entries);
        true
    }
}

} // verus!
