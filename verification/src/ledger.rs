//! The ledger dispatcher: the collection of accounts keyed by client
//! id. Accounts are created lazily on first reference and never
//! deleted; each incoming transaction is routed to the owning account.

use vstd::prelude::*;

use crate::account::{
    account_step, account_step_fits, lemma_account_step_wf, Account, AccountModel,
};
use crate::execution::{ExecutionError, ExecutionResult};
use crate::transaction::Transaction;

verus! {

/// Whether some account of the ledger belongs to the client.
pub open spec fn has_client(accounts: Seq<AccountModel>, client_id: u16) -> bool {
    exists|i: int| 0 <= i < accounts.len() && accounts[i].client_id == client_id
}

/// The position of the client's account; meaningful only when
/// `has_client` holds and the ledger is well-formed.
pub open spec fn client_index(accounts: Seq<AccountModel>, client_id: u16) -> int {
    choose|i: int| 0 <= i < accounts.len() && accounts[i].client_id == client_id
}

/// Well-formedness of the ledger: every account is well-formed and no
/// client owns two accounts.
pub open spec fn ledger_wf(accounts: Seq<AccountModel>) -> bool {
    &&& forall|i: int| 0 <= i < accounts.len() ==> (#[trigger] accounts[i]).wf()
    &&& forall|i: int, j: int|
        0 <= i < j < accounts.len() ==> accounts[i].client_id != accounts[j].client_id
}

/// One step of the ledger: the transaction is applied to the
/// addressed account, created empty on first reference; every other
/// account is untouched.
pub open spec fn ledger_step(accounts: Seq<AccountModel>, tx: Transaction) -> (Seq<AccountModel>,
    Result<ExecutionResult, ExecutionError>) {
    if has_client(accounts, tx.client_id) {
        let i = client_index(accounts, tx.client_id);
        let (m2, r) = account_step(accounts[i], tx);
        (accounts.update(i, m2), r)
    } else {
        let (m2, r) = account_step(AccountModel::empty(tx.client_id), tx);
        (accounts.push(m2), r)
    }
}

/// What the ledger demands of a step: only that the addressed
/// account's balances stay within the fixed-point range.
pub open spec fn ledger_step_fits(accounts: Seq<AccountModel>, tx: Transaction) -> bool {
    if has_client(accounts, tx.client_id) {
        account_step_fits(accounts[client_index(accounts, tx.client_id)], tx)
    } else {
        account_step_fits(AccountModel::empty(tx.client_id), tx)
    }
}

/// The ledger: one account per client.
pub struct Ledger {
    accounts: Vec<Account>,
}

impl View for Ledger {
    type V = Seq<AccountModel>;

    closed spec fn view(&self) -> Seq<AccountModel> {
        self.accounts.deep_view()
    }
}

impl Ledger {
    pub fn new() -> (r: Ledger)
        ensures
            r@ =~= Seq::<AccountModel>::empty(),
            ledger_wf(r@),
    {
        let ledger = Ledger { accounts: Vec::new() };
        proof {
            assert(ledger@ =~= Seq::<AccountModel>::empty());
        }
        ledger
    }

    /// Every account, for final snapshotting. The order is
    /// first-reference order and carries no meaning for correctness.
    pub fn accounts(&self) -> (r: &Vec<Account>)
        ensures
            r.deep_view() == self@,
    {
        &self.accounts
    }

    /// The position of the client's account, if the client has one.
    fn find_account(&self, client_id: u16) -> (r: Option<usize>)
        ensures
            match r {
                Some(i) => i < self@.len() && self@[i as int].client_id == client_id,
                None => !has_client(self@, client_id),
            },
    {
        let mut i: usize = 0;
        while i < self.accounts.len()
            invariant
                i <= self.accounts@.len(),
                self@.len() == self.accounts@.len(),
                forall|j: int| 0 <= j < self@.len() ==> self@[j] == self.accounts@[j]@,
                forall|j: int| 0 <= j < i ==> self@[j].client_id != client_id,
            decreases self.accounts@.len() - i,
        {
            if self.accounts[i].id() == client_id {
                return Some(i);
            }
            i = i + 1;
        }
        None
    }

    /// In a well-formed ledger the position found for a client is the
    /// position `client_index` designates.
    proof fn lemma_client_at(accounts: Seq<AccountModel>, i: int)
        requires
            ledger_wf(accounts),
            0 <= i < accounts.len(),
        ensures
            has_client(accounts, accounts[i].client_id),
            client_index(accounts, accounts[i].client_id) == i,
    {
        assert(has_client(accounts, accounts[i].client_id));
        let j = client_index(accounts, accounts[i].client_id);
        assert(0 <= j < accounts.len() && accounts[j].client_id == accounts[i].client_id);
    }

    /// Routes one transaction to the addressed account, creating the
    /// account on first reference. Creation has no failure mode; the
    /// result is the addressed account's own.
    pub fn execute_transaction(&mut self, tx: &Transaction) -> (r: Result<
        ExecutionResult,
        ExecutionError,
    >)
        requires
            ledger_wf(old(self)@),
            ledger_step_fits(old(self)@, *tx),
        ensures
            ledger_wf(final(self)@),
            (final(self)@, r) == ledger_step(old(self)@, *tx),
    {
        match self.find_account(tx.client_id) {
            Some(i) => {
                proof {
                    Self::lemma_client_at(self@, i as int);
                    lemma_account_step_wf(self@[i as int], *tx);
                }
                let mut account = self.accounts.remove(i);
                let result = account.execute_transaction(tx);
                self.accounts.insert(i, account);
                proof {
                    let stepped = account_step(old(self)@[i as int], *tx).0;
                    assert(self@ =~= old(self)@.update(i as int, stepped));
                }
                result
            },
            None => {
                proof {
                    lemma_account_step_wf(AccountModel::empty(tx.client_id), *tx);
                }
                let mut account = Account::new(tx.client_id);
                let result = account.execute_transaction(tx);
                self.accounts.push(account);
                proof {
                    let stepped = account_step(AccountModel::empty(tx.client_id), *tx).0;
                    assert(self@ =~= old(self)@.push(stepped));
                }
                result
            },
        }
    }

    /// Whether applying `tx` keeps the addressed account's balances
    /// within the fixed-point range, so that `execute_transaction`
    /// may be called.
    pub fn can_execute(&self, tx: &Transaction) -> (r: bool)
        requires
            ledger_wf(self@),
        ensures
            r == ledger_step_fits(self@, *tx),
    {
        match self.find_account(tx.client_id) {
            Some(i) => {
                proof {
                    Self::lemma_client_at(self@, i as int);
                }
                self.accounts[i].can_execute(tx)
            },
            None => {
                let fresh = Account::new(tx.client_id);
                fresh.can_execute(tx)
            },
        }
    }
}

impl crate::traits::execution::TransactionExecution for Ledger {
    open spec fn execution_wf(&self) -> bool {
        ledger_wf(self@)
    }

    open spec fn execution_fits(&self, tx: Transaction) -> bool {
        ledger_step_fits(self@, tx)
    }

    open spec fn execution_step(
        pre: Ledger,
        post: Ledger,
        tx: Transaction,
        r: Result<ExecutionResult, ExecutionError>,
    ) -> bool {
        (post@, r) == ledger_step(pre@, tx)
    }

    fn execute_transaction(&mut self, tx: &Transaction) -> (r: Result<
        ExecutionResult,
        ExecutionError,
    >) {
        Ledger::execute_transaction(self, tx)
    }
}

} // verus!
