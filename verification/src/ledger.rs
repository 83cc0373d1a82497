//! The ledger store and the transaction processor.
//!
//! The store owns two maps: client id to [`Account`], and transaction id to
//! the stored copy of a deposit or withdrawal record (the amount source for
//! later disputes, resolves and chargebacks; those three kinds are never
//! stored themselves). The processor routes one record at a time: it stores
//! the record if applicable, gets or lazily creates the client's account,
//! and applies the kind's effect — a dispute, resolve or chargeback whose
//! referenced transaction id is unknown is dropped without touching any
//! balance.

use crate::account::Account;
use crate::account::lemma_effects_preserve_balance;
use std::collections::HashMap;
use vstd::prelude::*;

verus! {

broadcast use vstd::std_specs::hash::group_hash_axioms;

/// The five kinds of input record.
#[derive(Clone, Copy, Debug, PartialEq, Eq, Structural)]
pub enum TxKind {
    Deposit,
    Withdrawal,
    Dispute,
    Resolve,
    Chargeback,
}

/// One input record. For deposits and withdrawals `amount` is the record's
/// own amount in ten-thousandths; for the other three kinds it is
/// meaningless — their amount is resolved from the stored transaction that
/// `tx` references.
#[derive(Clone, Copy, Debug, PartialEq, Eq, Structural)]
pub struct Transaction {
    pub kind: TxKind,
    pub client: u16,
    pub tx: u32,
    pub amount: i64,
}

/// The transaction map after a record has been offered for storage: only
/// deposits and withdrawals are kept (overwriting any earlier entry with the
/// same id), every other kind leaves the map alone.
pub open spec fn stored_after(
    txs: Map<u32, Transaction>,
    r: Transaction,
) -> Map<u32, Transaction> {
    if r.kind is Deposit || r.kind is Withdrawal {
        txs.insert(r.tx, r)
    } else {
        txs
    }
}

/// The account a client id reads as: the stored account, or the lazily
/// created zero-balance one for an id never seen before.
pub open spec fn account_of(accounts: Map<u16, Account>, client: u16) -> Account {
    if accounts.contains_key(client) {
        accounts[client]
    } else {
        Account::spec_initial(client)
    }
}

/// The account map after one record's effect, given the transaction map the
/// record sees (i.e. already updated for the record itself). The client's
/// account is created if absent; a dispute, resolve or chargeback whose
/// referenced id is unknown leaves it with its prior state.
pub open spec fn accounts_after(
    accounts: Map<u16, Account>,
    txs: Map<u32, Transaction>,
    r: Transaction,
) -> Map<u16, Account> {
    let acc = account_of(accounts, r.client);
    let stepped = match r.kind {
        TxKind::Deposit => acc.spec_deposit(r.amount),
        TxKind::Withdrawal => acc.spec_withdraw(r.amount),
        TxKind::Dispute => if txs.contains_key(r.tx) {
            acc.spec_dispute(txs[r.tx].amount)
        } else {
            acc
        },
        TxKind::Resolve => if txs.contains_key(r.tx) {
            acc.spec_resolve(txs[r.tx].amount)
        } else {
            acc
        },
        TxKind::Chargeback => if txs.contains_key(r.tx) {
            acc.spec_chargeback(txs[r.tx].amount)
        } else {
            acc
        },
    };
    accounts.insert(r.client, stepped)
}

/// Both maps after one record: the record is stored first (deposits and
/// withdrawals only), then the account effect is applied against the
/// updated transaction map.
pub open spec fn spec_apply(
    accounts: Map<u16, Account>,
    txs: Map<u32, Transaction>,
    r: Transaction,
) -> (Map<u16, Account>, Map<u32, Transaction>) {
    (accounts_after(accounts, stored_after(txs, r), r), stored_after(txs, r))
}

/// Both maps after a whole sequence of records, applied in arrival order.
pub open spec fn spec_replay(
    accounts: Map<u16, Account>,
    txs: Map<u32, Transaction>,
    rs: Seq<Transaction>,
) -> (Map<u16, Account>, Map<u32, Transaction>)
    decreases rs.len(),
{
    if rs.len() == 0 {
        (accounts, txs)
    } else {
        let stepped = spec_apply(accounts, txs, rs[0]);
        spec_replay(stepped.0, stepped.1, rs.drop_first())
    }
}

/// Every account in the map satisfies the balance invariant.
pub open spec fn all_balanced(accounts: Map<u16, Account>) -> bool {
    forall|c: u16| #[trigger] accounts.contains_key(c) ==> accounts[c].balanced()
}

/// The in-memory ledger: all accounts by client id, and the stored
/// deposit/withdrawal records by transaction id.
pub struct Ledger {
    pub accounts: HashMap<u16, Account>,
    pub transactions: HashMap<u32, Transaction>,
}

impl Ledger {
    /// An empty ledger: no accounts, no stored transactions.
    pub fn new() -> (l: Ledger)
        ensures
            l.accounts@ == Map::<u16, Account>::empty(),
            l.transactions@ == Map::<u32, Transaction>::empty(),
    {
        Ledger { accounts: HashMap::new(), transactions: HashMap::new() }
    }

    /// Stores the record under its transaction id iff it is a deposit or a
    /// withdrawal; a colliding id is silently overwritten.
    pub fn record_if_applicable(&mut self, tx: Transaction)
        ensures
            final(self).transactions@ == stored_after(old(self).transactions@, tx),
            final(self).accounts@ == old(self).accounts@,
    {
        match tx.kind {
            TxKind::Deposit | TxKind::Withdrawal => {
                self.transactions.insert(tx.tx, tx);
            },
            _ => {},
        }
    }

    /// Returns the client's account, inserting a fresh zero-balance one if
    /// the id was never seen before. Never fails.
    pub fn get_or_create_account(&mut self, client: u16) -> (account: Account)
        ensures
            account == account_of(old(self).accounts@, client),
            final(self).accounts@ == old(self).accounts@.insert(client, account),
            final(self).transactions@ == old(self).transactions@,
    {
        let account = match self.accounts.get(&client) {
            Some(a) => *a,
            None => Account::new(client),
        };
        self.accounts.insert(client, account);
        account
    }

    /// The stored transaction a dispute, resolve or chargeback refers to,
    /// or nothing if its id was never recorded.
    pub fn lookup_transaction(&self, tx_id: u32) -> (r: Option<Transaction>)
        ensures
            r == if self.transactions@.contains_key(tx_id) {
                Some(self.transactions@[tx_id])
            } else {
                None::<Transaction>
            },
    {
        match self.transactions.get(&tx_id) {
            Some(t) => Some(*t),
            None => None,
        }
    }

    /// Applies one record: stores it if applicable, gets or creates the
    /// account, and dispatches on the kind, resolving the referenced amount
    /// for disputes, resolves and chargebacks from the stored transaction.
    pub fn apply(&mut self, record: Transaction)
        ensures
            final(self).accounts@ == spec_apply(
                old(self).accounts@,
                old(self).transactions@,
                record,
            ).0,
            final(self).transactions@ == spec_apply(
                old(self).accounts@,
                old(self).transactions@,
                record,
            ).1,
    {
        self.record_if_applicable(record);
        let mut account = self.get_or_create_account(record.client);
        match record.kind {
            TxKind::Deposit => account.deposit(record.amount),
            TxKind::Withdrawal => account.withdraw(record.amount),
            TxKind::Dispute => {
                if let Some(referenced) = self.lookup_transaction(record.tx) {
                    account.dispute(referenced.amount);
                }
            },
            TxKind::Resolve => {
                if let Some(referenced) = self.lookup_transaction(record.tx) {
                    account.resolve(referenced.amount);
                }
            },
            TxKind::Chargeback => {
                if let Some(referenced) = self.lookup_transaction(record.tx) {
                    account.chargeback(referenced.amount);
                }
            },
        }
        self.accounts.insert(record.client, account);
        proof {
            assert(self.accounts@ =~= accounts_after(
                old(self).accounts@,
                stored_after(old(self).transactions@, record),
                record,
            ));
        }
    }

    /// Replays a whole sequence of records in arrival order.
    pub fn process(&mut self, records: &Vec<Transaction>)
        ensures
            final(self).accounts@ == spec_replay(
                old(self).accounts@,
                old(self).transactions@,
                records@,
            ).0,
            final(self).transactions@ == spec_replay(
                old(self).accounts@,
                old(self).transactions@,
                records@,
            ).1,
    {
        let n = records.len();
        let mut i: usize = 0;
        proof {
            assert(records@.skip(0) =~= records@);
        }
        while i < n
            invariant
                i <= n,
                n == records@.len(),
                spec_replay(self.accounts@, self.transactions@, records@.skip(i as int))
                    == spec_replay(old(self).accounts@, old(self).transactions@, records@),
            decreases n - i,
        {
            proof {
                assert(records@.skip(i as int)[0] == records@[i as int]);
                assert(records@.skip(i as int).drop_first() =~= records@.skip(i as int + 1));
            }
            let record = records[i];
            self.apply(record);
            i = i + 1;
        }
        proof {
            assert(records@.skip(n as int) =~= Seq::<Transaction>::empty());
        }
    }
}

/// One record keeps every account balanced: if all accounts satisfy
/// `total == available + held` before a record is applied, they all do
/// after, whatever the record holds.
pub proof fn lemma_apply_preserves_balance(
    accounts: Map<u16, Account>,
    txs: Map<u32, Transaction>,
    r: Transaction,
)
    requires
        all_balanced(accounts),
    ensures
        all_balanced(spec_apply(accounts, txs, r).0),
{
    let txs1 = stored_after(txs, r);
    let acc = account_of(accounts, r.client);
    assert(acc.balanced());
    lemma_effects_preserve_balance(acc, r.amount);
    if txs1.contains_key(r.tx) {
        lemma_effects_preserve_balance(acc, txs1[r.tx].amount);
    }
    let m = spec_apply(accounts, txs, r).0;
    assert forall|c: u16| #[trigger] m.contains_key(c) implies m[c].balanced() by {
        if c != r.client {
            assert(accounts.contains_key(c));
        }
    }
}

/// A whole replay keeps every account balanced; in particular, starting
/// from an empty ledger, every account ever emitted satisfies
/// `total == available + held`.
pub proof fn lemma_replay_preserves_balance(
    accounts: Map<u16, Account>,
    txs: Map<u32, Transaction>,
    rs: Seq<Transaction>,
)
    requires
        all_balanced(accounts),
    ensures
        all_balanced(spec_replay(accounts, txs, rs).0),
    decreases rs.len(),
{
    if rs.len() > 0 {
        lemma_apply_preserves_balance(accounts, txs, rs[0]);
        let stepped = spec_apply(accounts, txs, rs[0]);
        lemma_replay_preserves_balance(stepped.0, stepped.1, rs.drop_first());
    }
}

/// A dispute referencing an unknown transaction id changes nothing
/// observable: the transaction map is untouched, every client id reads as
/// the same account as before, and if the disputing client already had an
/// account the account map itself is exactly unchanged (a fresh client
/// gains only its zero-balance account, which is the lazy creation every
/// record performs).
pub proof fn lemma_dispute_unknown_tx_unchanged(
    accounts: Map<u16, Account>,
    txs: Map<u32, Transaction>,
    r: Transaction,
)
    requires
        r.kind is Dispute,
        !txs.contains_key(r.tx),
    ensures
        spec_apply(accounts, txs, r).1 == txs,
        forall|c: u16|
            #[trigger] account_of(spec_apply(accounts, txs, r).0, c) == account_of(accounts, c),
        accounts.contains_key(r.client) ==> spec_apply(accounts, txs, r).0 == accounts,
{
    let m = spec_apply(accounts, txs, r).0;
    assert(m == accounts.insert(r.client, account_of(accounts, r.client)));
    assert forall|c: u16| account_of(m, c) == account_of(accounts, c) by {
        if c != r.client && m.contains_key(c) {
            assert(accounts.contains_key(c));
        }
    }
    if accounts.contains_key(r.client) {
        assert(m =~= accounts);
    }
}

} // verus!
