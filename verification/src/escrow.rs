//! The escrow that channels lock their collateral in: the interface the
//! ledger consumes, and a bookkeeping of balances held in memory.

use vstd::prelude::*;
use crate::primitives::{AccountId, Balance};

verus! {

/// Why the escrow refused to lock funds.
#[derive(Clone, Copy, Debug, PartialEq, Eq, Structural)]
pub enum EscrowError {
    /// The account's free balance does not cover the amount.
    InsufficientFunds,
}

/// Locked balances per account. Funds are locked out of an account's free
/// balance, and leave the lock only towards somebody's free balance.
pub trait Escrow: Sized {
    /// The invariant of the implementation.
    spec fn wf(&self) -> bool;

    /// The free balance of `who`.
    spec fn free(&self, who: AccountId) -> nat;

    /// The locked balance of `who`.
    spec fn reserved(&self, who: AccountId) -> nat;

    /// Whether `amount` can be locked for `who` now.
    spec fn can_reserve(&self, who: AccountId, amount: Balance) -> bool;

    /// Locks `amount` out of the free balance of `who`, or changes nothing.
    fn reserve(&mut self, who: AccountId, amount: Balance) -> (r: Result<(), EscrowError>)
        requires
            old(self).wf(),
        ensures
            final(self).wf(),
            r is Ok <==> old(self).can_reserve(who, amount),
            r is Ok ==> forall|w: AccountId|
                #![trigger final(self).free(w)]
                #![trigger final(self).reserved(w)]
                {
                    &&& final(self).reserved(w) == old(self).reserved(w) + (if w == who { amount as int } else { 0 })
                    &&& final(self).free(w) == old(self).free(w) - (if w == who { amount as int } else { 0 })
                },
            r is Err ==> forall|w: AccountId|
                #![trigger final(self).free(w)]
                #![trigger final(self).reserved(w)]
                final(self).free(w) == old(self).free(w) && final(self).reserved(w) == old(self).reserved(w),
    ;

    /// The locked balance of `who`.
    fn reserved_balance(&self, who: AccountId) -> (b: Balance)
        requires
            self.wf(),
        ensures
            b == self.reserved(who),
    ;

    /// Moves `amount` out of the locked balance of `from` into the free
    /// balance of `to`.
    fn release(&mut self, from: AccountId, to: AccountId, amount: Balance)
        requires
            old(self).wf(),
            old(self).reserved(from) >= amount,
        ensures
            final(self).wf(),
            forall|w: AccountId|
                #![trigger final(self).free(w)]
                #![trigger final(self).reserved(w)]
                {
                    &&& final(self).reserved(w) == old(self).reserved(w) - (if w == from { amount as int } else { 0 })
                    &&& final(self).free(w) == old(self).free(w) + (if w == to { amount as int } else { 0 })
                },
    ;
}

/// No balance differs between `before` and `after`.
pub open spec fn same_balances<E: Escrow>(before: &E, after: &E) -> bool {
    forall|w: AccountId|
        #![trigger after.free(w)]
        #![trigger after.reserved(w)]
        after.free(w) == before.free(w) && after.reserved(w) == before.reserved(w)
}

/// `after` differs from `before` in that `amount` went from the free to the
/// locked balance of `who`.
pub open spec fn reserved_by<E: Escrow>(before: &E, after: &E, who: AccountId, amount: Balance) -> bool {
    forall|w: AccountId|
        #![trigger after.free(w)]
        #![trigger after.reserved(w)]
        {
            &&& after.reserved(w) == before.reserved(w) + (if w == who { amount as int } else { 0 })
            &&& after.free(w) == before.free(w) - (if w == who { amount as int } else { 0 })
        }
}

/// One account with its two balances.
#[derive(Clone, Copy, Debug, PartialEq, Eq, Structural)]
pub struct Account {
    pub who: AccountId,
    pub free: Balance,
    pub reserved: Balance,
}

/// All the funds in `accounts`.
pub open spec fn total(accounts: Seq<Account>) -> nat
    decreases accounts.len(),
{
    if accounts.len() == 0 {
        0
    } else {
        (total(accounts.drop_last()) + accounts.last().free + accounts.last().reserved) as nat
    }
}

/// No identifier occurs twice in `accounts`.
pub open spec fn distinct(accounts: Seq<Account>) -> bool {
    forall|i: int, j: int|
        0 <= i < j < accounts.len() ==> (#[trigger] accounts[i]).who != (#[trigger] accounts[j]).who
}

/// Whether `accounts` has an entry for `who`.
pub open spec fn known(accounts: Seq<Account>, who: AccountId) -> bool {
    exists|i: int| 0 <= i < accounts.len() && (#[trigger] accounts[i]).who == who
}

/// Where the entry for `who` stands in `accounts`.
pub open spec fn index_of(accounts: Seq<Account>, who: AccountId) -> int {
    choose|i: int| 0 <= i < accounts.len() && (#[trigger] accounts[i]).who == who
}

/// The entry for `who`, or an empty account where there is none.
pub open spec fn held_in(accounts: Seq<Account>, who: AccountId) -> Account {
    if known(accounts, who) {
        accounts[index_of(accounts, who)]
    } else {
        Account { who, free: 0, reserved: 0 }
    }
}

/// Changing one account changes the total by as much.
pub proof fn lemma_total_update(accounts: Seq<Account>, i: int, account: Account)
    requires
        0 <= i < accounts.len(),
    ensures
        total(accounts.update(i, account)) + accounts[i].free + accounts[i].reserved == total(accounts)
            + account.free + account.reserved,
    decreases accounts.len(),
{
    let changed = accounts.update(i, account);
    if i == accounts.len() - 1 {
        assert(changed.drop_last() =~= accounts.drop_last());
    } else {
        lemma_total_update(accounts.drop_last(), i, account);
        assert(changed.drop_last() =~= accounts.drop_last().update(i, account));
    }
}

/// No account holds more than the total.
pub proof fn lemma_total_covers(accounts: Seq<Account>, i: int)
    requires
        0 <= i < accounts.len(),
    ensures
        accounts[i].free + accounts[i].reserved <= total(accounts),
    decreases accounts.len(),
{
    if i < accounts.len() - 1 {
        lemma_total_covers(accounts.drop_last(), i);
    }
}

/// Among distinct accounts, each entry is the one held for its identifier.
pub proof fn lemma_held_at(accounts: Seq<Account>, i: int)
    requires
        distinct(accounts),
        0 <= i < accounts.len(),
    ensures
        known(accounts, accounts[i].who),
        index_of(accounts, accounts[i].who) == i,
        held_in(accounts, accounts[i].who) == accounts[i],
{
    let j = index_of(accounts, accounts[i].who);
    assert(accounts[j].who == accounts[i].who);
    if j < i {
        assert(accounts[j].who != accounts[i].who);
    }
    if i < j {
        assert(accounts[i].who != accounts[j].who);
    }
}

/// Replacing the balances of one account leaves every other account as it
/// was.
pub proof fn lemma_update_keeps_others(accounts: Seq<Account>, i: int, account: Account)
    requires
        distinct(accounts),
        0 <= i < accounts.len(),
        account.who == accounts[i].who,
    ensures
        distinct(accounts.update(i, account)),
        held_in(accounts.update(i, account), account.who) == account,
        forall|w: AccountId|
            w != account.who ==> #[trigger] held_in(accounts.update(i, account), w) == held_in(accounts, w),
{
    let changed = accounts.update(i, account);
    assert forall|a: int, b: int| 0 <= a < b < changed.len() implies (#[trigger] changed[a]).who != (
    #[trigger] changed[b]).who by {
        assert(changed[a].who == accounts[a].who);
        assert(changed[b].who == accounts[b].who);
    }
    lemma_held_at(changed, i);
    assert forall|w: AccountId| w != account.who implies #[trigger] held_in(changed, w) == held_in(
        accounts,
        w,
    ) by {
        if known(changed, w) {
            let j = index_of(changed, w);
            assert(changed[j].who == w);
            assert(j != i);
            assert(accounts[j] == changed[j]);
            lemma_held_at(accounts, j);
        } else if known(accounts, w) {
            let j = index_of(accounts, w);
            assert(accounts[j].who == w);
            assert(changed[j].who == w);
        }
    }
}

/// A new, empty account leaves what is held for every identifier as it was.
pub proof fn lemma_push_keeps_all(accounts: Seq<Account>, who: AccountId)
    requires
        distinct(accounts),
        !known(accounts, who),
    ensures
        distinct(accounts.push(Account { who, free: 0, reserved: 0 })),
        total(accounts.push(Account { who, free: 0, reserved: 0 })) == total(accounts),
        forall|w: AccountId|
            #[trigger] held_in(accounts.push(Account { who, free: 0, reserved: 0 }), w) == held_in(accounts, w),
{
    let fresh = Account { who, free: 0, reserved: 0 };
    let grown = accounts.push(fresh);
    assert(grown.drop_last() =~= accounts);
    assert forall|a: int, b: int| 0 <= a < b < grown.len() implies (#[trigger] grown[a]).who != (
    #[trigger] grown[b]).who by {
        assert(grown[a] == accounts[a]);
        if b < accounts.len() {
            assert(grown[b] == accounts[b]);
        }
    }
    lemma_held_at(grown, accounts.len() as int);
    assert forall|w: AccountId| #[trigger] held_in(grown, w) == held_in(accounts, w) by {
        if w != who {
            if known(grown, w) {
                let j = index_of(grown, w);
                assert(grown[j].who == w);
                assert(j < accounts.len());
                assert(accounts[j] == grown[j]);
                lemma_held_at(accounts, j);
            } else if known(accounts, w) {
                let j = index_of(accounts, w);
                assert(grown[j].who == w);
            }
        }
    }
}

/// An escrow that keeps its accounts in memory. All funds enter through
/// `deposit`.
#[derive(Debug)]
pub struct MemoryEscrow {
    accounts: Vec<Account>,
    issued: Balance,
}

impl MemoryEscrow {
    /// The balances of `who`; nothing for an account never seen.
    pub closed spec fn held(&self, who: AccountId) -> Account {
        held_in(self.accounts@, who)
    }

    /// No account is kept twice, and the accounts add up to what was
    /// deposited.
    pub closed spec fn balanced(&self) -> bool {
        &&& distinct(self.accounts@)
        &&& total(self.accounts@) == self.issued
    }

    /// All funds ever deposited.
    pub closed spec fn issued(&self) -> nat {
        self.issued as nat
    }

    /// An escrow without funds.
    pub fn new() -> (r: Self)
        ensures
            r.wf(),
            r.issued() == 0,
            forall|w: AccountId| r.free(w) == 0 && r.reserved(w) == 0,
    {
        MemoryEscrow { accounts: Vec::new(), issued: 0 }
    }

    /// Where the account `who` is kept, if it is.
    fn find(&self, who: AccountId) -> (at: Option<usize>)
        ensures
            at matches Some(i) ==> i < self.accounts@.len() && self.accounts@[i as int].who == who,
            at is None ==> !known(self.accounts@, who),
    {
        let mut i: usize = 0;
        while i < self.accounts.len()
            invariant
                i <= self.accounts@.len(),
                forall|k: int| 0 <= k < i ==> (#[trigger] self.accounts@[k]).who != who,
            decreases self.accounts@.len() - i,
        {
            if self.accounts[i].who == who {
                return Some(i);
            }
            i += 1;
        }
        None
    }

    /// Where the account `who` is kept, after making room for it if needed;
    /// no balance changes.
    fn slot(&mut self, who: AccountId) -> (at: usize)
        requires
            old(self).balanced(),
        ensures
            final(self).balanced(),
            at < final(self).accounts@.len(),
            final(self).accounts@[at as int] == old(self).held(who),
            final(self).accounts@[at as int].who == who,
            final(self).issued() == old(self).issued(),
            forall|w: AccountId| #[trigger] final(self).held(w) == old(self).held(w),
            final(self).accounts@.len() >= old(self).accounts@.len(),
            forall|k: int|
                0 <= k < old(self).accounts@.len() ==> #[trigger] final(self).accounts@[k] == old(
                    self,
                ).accounts@[k],
    {
        match self.find(who) {
            Some(i) => {
                proof {
                    lemma_held_at(self.accounts@, i as int);
                }
                i
            },
            None => {
                proof {
                    lemma_push_keeps_all(self.accounts@, who);
                }
                self.accounts.push(Account { who, free: 0, reserved: 0 });
                proof {
                    lemma_held_at(self.accounts@, self.accounts@.len() - 1);
                }
                self.accounts.len() - 1
            },
        }
    }

    /// Puts `account` in place of the entry at `at`, which is for the same
    /// identifier.
    fn store(&mut self, at: usize, account: Account)
        requires
            old(self).balanced(),
            at < old(self).accounts@.len(),
            old(self).accounts@[at as int].who == account.who,
            account.free + account.reserved == old(self).accounts@[at as int].free + old(
                self,
            ).accounts@[at as int].reserved,
        ensures
            final(self).balanced(),
            final(self).accounts@.len() == old(self).accounts@.len(),
            final(self).accounts@[at as int] == account,
            final(self).issued() == old(self).issued(),
            final(self).held(account.who) == account,
            forall|w: AccountId| w != account.who ==> #[trigger] final(self).held(w) == old(self).held(w),
    {
        proof {
            lemma_total_update(self.accounts@, at as int, account);
            lemma_update_keeps_others(self.accounts@, at as int, account);
        }
        self.accounts.set(at, account);
    }

    /// Adds `amount` of new funds to the free balance of `who`. Refused, with
    /// nothing changed, when the funds in the escrow would exceed what a
    /// balance can express.
    pub fn deposit(&mut self, who: AccountId, amount: Balance) -> (done: bool)
        requires
            old(self).wf(),
        ensures
            final(self).wf(),
            done == (old(self).issued() + amount <= Balance::MAX),
            !done ==> same_balances(old(self), final(self)) && final(self).issued() == old(self).issued(),
            done ==> final(self).issued() == old(self).issued() + amount,
            done ==> forall|w: AccountId|
                #![trigger final(self).free(w)]
                #![trigger final(self).reserved(w)]
                {
                    &&& final(self).reserved(w) == old(self).reserved(w)
                    &&& final(self).free(w) == old(self).free(w) + (if w == who { amount as int } else { 0 })
                },
    {
        let issued = match self.issued.checked_add(amount) {
            Some(x) => x,
            None => {
                return false;
            },
        };
        let at = self.slot(who);
        let ghost grown = *self;
        let account = self.accounts[at];
        proof {
            lemma_total_covers(self.accounts@, at as int);
            lemma_total_update(
                self.accounts@,
                at as int,
                Account { who, free: (account.free + amount) as Balance, reserved: account.reserved },
            );
            lemma_update_keeps_others(
                self.accounts@,
                at as int,
                Account { who, free: (account.free + amount) as Balance, reserved: account.reserved },
            );
        }
        self.accounts.set(at, Account { who, free: account.free + amount, reserved: account.reserved });
        self.issued = issued;
        proof {
            assert forall|w: AccountId|
                #![trigger self.free(w)]
                #![trigger self.reserved(w)]
                {
                    &&& self.reserved(w) == old(self).reserved(w)
                    &&& self.free(w) == old(self).free(w) + (if w == who { amount as int } else { 0 })
                } by {
                assert(grown.held(w) == old(self).held(w));
            }
        }
        true
    }

    /// The free balance of `who`.
    pub fn free_balance(&self, who: AccountId) -> (b: Balance)
        requires
            self.wf(),
        ensures
            b == self.free(who),
    {
        match self.find(who) {
            Some(i) => {
                proof {
                    lemma_held_at(self.accounts@, i as int);
                }
                self.accounts[i].free
            },
            None => 0,
        }
    }
}

impl Escrow for MemoryEscrow {
    open spec fn wf(&self) -> bool {
        self.balanced()
    }

    open spec fn free(&self, who: AccountId) -> nat {
        self.held(who).free as nat
    }

    open spec fn reserved(&self, who: AccountId) -> nat {
        self.held(who).reserved as nat
    }

    open spec fn can_reserve(&self, who: AccountId, amount: Balance) -> bool {
        self.free(who) >= amount
    }

    fn reserve(&mut self, who: AccountId, amount: Balance) -> (r: Result<(), EscrowError>) {
        let at = match self.find(who) {
            Some(i) => i,
            None => {
                if amount == 0 {
                    return Ok(());
                }
                return Err(EscrowError::InsufficientFunds);
            },
        };
        let account = self.accounts[at];
        proof {
            lemma_held_at(self.accounts@, at as int);
            lemma_total_covers(self.accounts@, at as int);
        }
        if account.free < amount {
            return Err(EscrowError::InsufficientFunds);
        }
        self.store(at, Account { who, free: account.free - amount, reserved: account.reserved + amount });
        Ok(())
    }

    fn reserved_balance(&self, who: AccountId) -> (b: Balance) {
        match self.find(who) {
            Some(i) => {
                proof {
                    lemma_held_at(self.accounts@, i as int);
                }
                self.accounts[i].reserved
            },
            None => 0,
        }
    }

    fn release(&mut self, from: AccountId, to: AccountId, amount: Balance) {
        if amount == 0 {
            return ;
        }
        let source_at = self.slot(from);
        let ghost start = *self;
        let source = self.accounts[source_at];
        if from == to {
            proof {
                lemma_total_covers(self.accounts@, source_at as int);
            }
            self.store(
                source_at,
                Account { who: from, free: source.free + amount, reserved: source.reserved - amount },
            );
            proof {
                assert forall|w: AccountId|
                    #![trigger self.free(w)]
                    #![trigger self.reserved(w)]
                    {
                        &&& self.reserved(w) == old(self).reserved(w) - (if w == from { amount as int } else { 0 })
                        &&& self.free(w) == old(self).free(w) + (if w == to { amount as int } else { 0 })
                    } by {
                    assert(start.held(w) == old(self).held(w));
                }
            }
            return ;
        }
        let target_at = self.slot(to);
        let ghost grown = *self;
        let target = self.accounts[target_at];
        proof {
            assert(grown.held(from) == start.held(from));
            assert(self.accounts@[source_at as int] == source);
            lemma_held_at(self.accounts@, target_at as int);
            lemma_held_at(self.accounts@, source_at as int);
            lemma_total_covers(self.accounts@, target_at as int);
            lemma_total_covers(self.accounts@, source_at as int);
            lemma_total_update(
                self.accounts@,
                source_at as int,
                Account { who: from, free: source.free, reserved: (source.reserved - amount) as Balance },
            );
            lemma_update_keeps_others(
                self.accounts@,
                source_at as int,
                Account { who: from, free: source.free, reserved: (source.reserved - amount) as Balance },
            );
        }
        self.accounts.set(
            source_at,
            Account { who: from, free: source.free, reserved: source.reserved - amount },
        );
        let ghost lowered = *self;
        proof {
            assert(lowered.accounts@[target_at as int] == target);
            lemma_total_covers(self.accounts@, target_at as int);
            lemma_total_update(
                self.accounts@,
                target_at as int,
                Account { who: to, free: (target.free + amount) as Balance, reserved: target.reserved },
            );
            lemma_update_keeps_others(
                self.accounts@,
                target_at as int,
                Account { who: to, free: (target.free + amount) as Balance, reserved: target.reserved },
            );
        }
        self.accounts.set(target_at, Account { who: to, free: target.free + amount, reserved: target.reserved });
        proof {
            assert forall|w: AccountId|
                #![trigger self.free(w)]
                #![trigger self.reserved(w)]
                {
                    &&& self.reserved(w) == old(self).reserved(w) - (if w == from { amount as int } else { 0 })
                    &&& self.free(w) == old(self).free(w) + (if w == to { amount as int } else { 0 })
                } by {
                assert(start.held(w) == old(self).held(w));
                assert(grown.held(w) == start.held(w));
                if w != from {
                    assert(lowered.held(w) == grown.held(w));
                }
                if w != to {
                    assert(self.held(w) == lowered.held(w));
                }
            }
        }
    }
}

} // verus!
