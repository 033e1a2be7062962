//! The ledger engine: it owns the map of client accounts and the map of
//! stored transactions, and replays one incoming record at a time.
//!
//! The whole behaviour of [`PaymentEngine::process_transaction`] is pinned by
//! the mathematical model [`EngineModel`] and its transition function
//! [`EngineModel::apply`]: after every call the engine's state equals the
//! model's next state.

use std::collections::HashMap;

use vstd::prelude::*;

use crate::account::{Account, AccountOutput};
use crate::transaction::{
    record_valid, EngineError, StoredTransaction, TransactionRecord, TransactionType,
};

verus! {

broadcast use vstd::std_specs::hash::group_hash_axioms;

/// The mathematical state of the engine: the two maps, and the client ids in
/// the order they were first seen (the order of the output rows).
#[verifier::ext_equal]
pub struct EngineModel {
    pub accounts: Map<u16, Account>,
    pub transactions: Map<u32, StoredTransaction>,
    pub clients: Seq<u16>,
}

impl EngineModel {
    /// The state before any record: no accounts, no history.
    pub open spec fn empty() -> EngineModel {
        EngineModel {
            accounts: Map::empty(),
            transactions: Map::empty(),
            clients: Seq::empty(),
        }
    }

    /// Well-formedness: every account's total fits the representation, and
    /// the client list holds exactly the account keys, each once.
    pub open spec fn wf(self) -> bool {
        &&& forall|c: u16| #[trigger] self.accounts.contains_key(c) ==> self.accounts[c].wf()
        &&& self.clients.no_duplicates()
        &&& forall|i: int|
            0 <= i < self.clients.len() ==> self.accounts.contains_key(#[trigger] self.clients[i])
        &&& forall|c: u16| #[trigger] self.accounts.contains_key(c) ==> self.clients.contains(c)
    }

    /// Looks up a client, creating a fresh unlocked account on first
    /// reference.
    pub open spec fn ensure_client(self, client: u16) -> EngineModel {
        if self.accounts.contains_key(client) {
            self
        } else {
            EngineModel {
                accounts: self.accounts.insert(client, Account::spec_new()),
                clients: self.clients.push(client),
                ..self
            }
        }
    }

    /// The transition taken for one incoming record.
    ///
    /// An invalid record (a deposit or withdrawal without an amount) changes
    /// nothing. Otherwise the client's account is looked up or created, and
    /// the record is dispatched on its kind:
    /// - a deposit credits the account (a no-op while locked) and always
    ///   records history, so later dispute lookups stay consistent;
    /// - a withdrawal debits the account and records history only when it
    ///   applied — a failed withdrawal can never be disputed;
    /// - a dispute holds the stored amount and marks the entry disputed, if
    ///   the entry exists, belongs to this client, and is not yet disputed;
    /// - a resolve releases the stored amount and clears the flag, if the
    ///   entry exists, belongs to this client, and is disputed;
    /// - a chargeback removes the stored amount from held funds, locks the
    ///   account, and clears the flag, under the same conditions as resolve.
    /// Every reference that misses those conditions is benign traffic and
    /// changes nothing.
    pub open spec fn apply(self, record: TransactionRecord) -> EngineModel {
        if !record_valid(record) {
            self
        } else {
            let m = self.ensure_client(record.client);
            let account = m.accounts[record.client];
            match record.tx_type {
                TransactionType::Deposit => {
                    let amount = record.amount->0;
                    EngineModel {
                        accounts: m.accounts.insert(record.client, account.spec_deposit(amount)),
                        transactions: m.transactions.insert(
                            record.tx,
                            StoredTransaction {
                                client: record.client,
                                amount,
                                tx_type: TransactionType::Deposit,
                                disputed: false,
                            },
                        ),
                        ..m
                    }
                },
                TransactionType::Withdrawal => {
                    let amount = record.amount->0;
                    if account.can_withdraw(amount) {
                        EngineModel {
                            accounts: m.accounts.insert(
                                record.client,
                                account.spec_withdraw(amount),
                            ),
                            transactions: m.transactions.insert(
                                record.tx,
                                StoredTransaction {
                                    client: record.client,
                                    amount,
                                    tx_type: TransactionType::Withdrawal,
                                    disputed: false,
                                },
                            ),
                            ..m
                        }
                    } else {
                        m
                    }
                },
                TransactionType::Dispute => {
                    if m.transactions.contains_key(record.tx) {
                        let entry = m.transactions[record.tx];
                        if entry.client == record.client && !entry.disputed {
                            EngineModel {
                                accounts: m.accounts.insert(
                                    record.client,
                                    account.spec_hold(entry.amount),
                                ),
                                transactions: m.transactions.insert(
                                    record.tx,
                                    StoredTransaction { disputed: true, ..entry },
                                ),
                                ..m
                            }
                        } else {
                            m
                        }
                    } else {
                        m
                    }
                },
                TransactionType::Resolve => {
                    if m.transactions.contains_key(record.tx) {
                        let entry = m.transactions[record.tx];
                        if entry.client == record.client && entry.disputed {
                            EngineModel {
                                accounts: m.accounts.insert(
                                    record.client,
                                    account.spec_release(entry.amount),
                                ),
                                transactions: m.transactions.insert(
                                    record.tx,
                                    StoredTransaction { disputed: false, ..entry },
                                ),
                                ..m
                            }
                        } else {
                            m
                        }
                    } else {
                        m
                    }
                },
                TransactionType::Chargeback => {
                    if m.transactions.contains_key(record.tx) {
                        let entry = m.transactions[record.tx];
                        if entry.client == record.client && entry.disputed {
                            EngineModel {
                                accounts: m.accounts.insert(
                                    record.client,
                                    account.spec_chargeback(entry.amount),
                                ),
                                transactions: m.transactions.insert(
                                    record.tx,
                                    StoredTransaction { disputed: false, ..entry },
                                ),
                                ..m
                            }
                        } else {
                            m
                        }
                    } else {
                        m
                    }
                },
            }
        }
    }
}

/// Creating an account on first reference keeps the model well-formed, and
/// afterwards the client is always known.
pub proof fn lemma_ensure_client_wf(m: EngineModel, client: u16)
    requires
        m.wf(),
    ensures
        m.ensure_client(client).wf(),
        m.ensure_client(client).accounts.contains_key(client),
        m.ensure_client(client).accounts[client].wf(),
{
    let m1 = m.ensure_client(client);
    if !m.accounts.contains_key(client) {
        assert(!m.clients.contains(client)) by {
            if m.clients.contains(client) {
                let i = choose|i: int| 0 <= i < m.clients.len() && m.clients[i] == client;
                assert(m.accounts.contains_key(m.clients[i]));
            }
        }
        assert(m1.clients.no_duplicates()) by {
            assert forall|i: int, j: int|
                0 <= i < m1.clients.len() && 0 <= j < m1.clients.len() && i
                    != j implies m1.clients[i] != m1.clients[j] by {
                if i < m.clients.len() && j < m.clients.len() {
                    assert(m.clients[i] != m.clients[j]);
                } else if i < m.clients.len() {
                    assert(m.clients.contains(m.clients[i]));
                } else {
                    assert(m.clients.contains(m.clients[j]));
                }
            }
        }
        assert forall|c: u16| #[trigger]
            m1.accounts.contains_key(c) implies m1.clients.contains(c) by {
            if c == client {
                assert(m1.clients[m.clients.len() as int] == c);
            } else {
                let i = choose|i: int| 0 <= i < m.clients.len() && m.clients[i] == c;
                assert(m1.clients[i] == c);
            }
        }
    }
}

/// Replaying any record keeps the model well-formed.
pub proof fn lemma_apply_wf(m: EngineModel, record: TransactionRecord)
    requires
        m.wf(),
    ensures
        m.apply(record).wf(),
{
    if record_valid(record) {
        lemma_ensure_client_wf(m, record.client);
        let m1 = m.ensure_client(record.client);
        let m2 = m.apply(record);
        assert forall|c: u16| #[trigger]
            m2.accounts.contains_key(c) implies m2.clients.contains(c) by {
            assert(m1.accounts.contains_key(c));
        }
        assert forall|c: u16| #[trigger]
            m2.accounts.contains_key(c) implies m2.accounts[c].wf() by {
            assert(m1.accounts.contains_key(c));
        }
    }
}

/// The state after replaying a whole log of records, in order.
pub open spec fn apply_all(m: EngineModel, records: Seq<TransactionRecord>) -> EngineModel
    decreases records.len(),
{
    if records.len() == 0 {
        m
    } else {
        apply_all(m.apply(records[0]), records.drop_first())
    }
}

/// The log is a plain funds-movement log: every record is a deposit or a
/// withdrawal carrying an amount, with no dispute lifecycle in it.
pub open spec fn only_funds_moves(records: Seq<TransactionRecord>) -> bool {
    forall|i: int|
        0 <= i < records.len() ==> {
            &&& ((#[trigger] records[i]).tx_type == TransactionType::Deposit || records[i].tx_type
                == TransactionType::Withdrawal)
            &&& records[i].amount is Some
        }
}

/// The sum of all deposit amounts a log directs at one client.
pub open spec fn deposit_total(records: Seq<TransactionRecord>, client: u16) -> int
    decreases records.len(),
{
    if records.len() == 0 {
        0
    } else {
        let head: int = if records[0].tx_type == TransactionType::Deposit && records[0].client
            == client && records[0].amount is Some {
            records[0].amount->0 as int
        } else {
            0
        };
        head + deposit_total(records.drop_first(), client)
    }
}

/// The sum of the withdrawals for one client that actually apply when the
/// log is replayed from `m`.
pub open spec fn successful_withdrawal_total(
    m: EngineModel,
    records: Seq<TransactionRecord>,
    client: u16,
) -> int
    decreases records.len(),
{
    if records.len() == 0 {
        0
    } else {
        let r = records[0];
        let head: int = if r.tx_type == TransactionType::Withdrawal && r.client == client
            && r.amount is Some && m.ensure_client(r.client).accounts[r.client].can_withdraw(
            r.amount->0,
        ) {
            r.amount->0 as int
        } else {
            0
        };
        head + successful_withdrawal_total(m.apply(r), records.drop_first(), client)
    }
}

pub proof fn lemma_deposit_total_nonneg(records: Seq<TransactionRecord>, client: u16)
    ensures
        deposit_total(records, client) >= 0,
    decreases records.len(),
{
    if records.len() > 0 {
        lemma_deposit_total_nonneg(records.drop_first(), client);
    }
}

/// The induction behind [`lemma_no_disputes_total`], generalized over the
/// starting state: from any state in which the client (if known) holds
/// nothing and is unlocked, and whose deposits all fit, a funds-movement log
/// keeps `held` at zero and moves `available` by deposits minus successful
/// withdrawals.
pub proof fn lemma_funds_moves_general(
    m: EngineModel,
    records: Seq<TransactionRecord>,
    client: u16,
)
    requires
        only_funds_moves(records),
        m.accounts.contains_key(client) ==> {
            &&& m.accounts[client].held == 0
            &&& !m.accounts[client].locked
            &&& m.accounts[client].available + deposit_total(records, client) <= u64::MAX
        },
        !m.accounts.contains_key(client) ==> deposit_total(records, client) <= u64::MAX,
    ensures
        ({
            let after = apply_all(m, records);
            let before_avail: int = if m.accounts.contains_key(client) {
                m.accounts[client].available as int
            } else {
                0
            };
            &&& m.accounts.contains_key(client) ==> after.accounts.contains_key(client)
            &&& after.accounts.contains_key(client) ==> {
                &&& after.accounts[client].held == 0
                &&& !after.accounts[client].locked
                &&& after.accounts[client].available == before_avail + deposit_total(
                    records,
                    client,
                ) - successful_withdrawal_total(m, records, client)
            }
        }),
    decreases records.len(),
{
    lemma_deposit_total_nonneg(records, client);
    if records.len() > 0 {
        let r = records[0];
        let m1 = m.apply(r);
        lemma_deposit_total_nonneg(records.drop_first(), client);
        lemma_funds_moves_general(m1, records.drop_first(), client);
    }
}

/// Replaying a log of deposits and withdrawals alone — no disputes — from an
/// empty ledger leaves nothing held and no account locked, and makes each
/// client's total exactly the sum of its deposits minus the sum of its
/// successful withdrawals.
pub proof fn lemma_no_disputes_total(records: Seq<TransactionRecord>, client: u16)
    requires
        only_funds_moves(records),
        deposit_total(records, client) <= u64::MAX,
    ensures
        ({
            let after = apply_all(EngineModel::empty(), records);
            after.accounts.contains_key(client) ==> {
                &&& after.accounts[client].held == 0
                &&& !after.accounts[client].locked
                &&& after.accounts[client].spec_total() == deposit_total(records, client)
                    - successful_withdrawal_total(EngineModel::empty(), records, client)
            }
        }),
{
    lemma_funds_moves_general(EngineModel::empty(), records, client);
}

/// Accounts and history entries are created, never deleted: whatever a
/// record does, every client and every stored transaction known before is
/// still known afterwards.
pub proof fn lemma_apply_deletes_nothing(
    m: EngineModel,
    record: TransactionRecord,
    client: u16,
    tx: u32,
)
    ensures
        m.accounts.contains_key(client) ==> m.apply(record).accounts.contains_key(client),
        m.transactions.contains_key(tx) ==> m.apply(record).transactions.contains_key(tx),
{
}

/// During the dispute lifecycle a history entry is immutable apart from its
/// `disputed` flag: a dispute, resolve or chargeback never changes the owner,
/// the amount or the kind of any stored transaction.
pub proof fn lemma_lifecycle_preserves_entry(m: EngineModel, record: TransactionRecord, tx: u32)
    requires
        record.tx_type == TransactionType::Dispute || record.tx_type == TransactionType::Resolve
            || record.tx_type == TransactionType::Chargeback,
        m.transactions.contains_key(tx),
    ensures
        m.apply(record).transactions.contains_key(tx),
        m.apply(record).transactions[tx].client == m.transactions[tx].client,
        m.apply(record).transactions[tx].amount == m.transactions[tx].amount,
        m.apply(record).transactions[tx].tx_type == m.transactions[tx].tx_type,
{
}

/// A withdrawal that is refused leaves no history entry, so it can never be
/// disputed later.
pub proof fn lemma_failed_withdrawal_leaves_no_history(m: EngineModel, record: TransactionRecord)
    requires
        record.tx_type == TransactionType::Withdrawal,
        record.amount is Some,
        !m.ensure_client(record.client).accounts[record.client].can_withdraw(record.amount->0),
    ensures
        m.apply(record).transactions == m.transactions,
{
}

/// Disputing the same transaction twice holds the amount only once: the
/// second dispute meets an entry already marked `disputed` and changes
/// nothing.
pub proof fn lemma_dispute_idempotent(m: EngineModel, record: TransactionRecord)
    requires
        record.tx_type == TransactionType::Dispute,
    ensures
        m.apply(record).apply(record) == m.apply(record),
{
}

/// A dispute or a resolve never changes a client's total: funds only move
/// between `available` and `held`.
pub proof fn lemma_dispute_resolve_preserve_total(
    m: EngineModel,
    record: TransactionRecord,
    client: u16,
)
    requires
        m.wf(),
        record.tx_type == TransactionType::Dispute || record.tx_type
            == TransactionType::Resolve,
        m.accounts.contains_key(client),
    ensures
        m.apply(record).accounts.contains_key(client),
        m.apply(record).accounts[client].spec_total() == m.accounts[client].spec_total(),
{
    lemma_ensure_client_wf(m, record.client);
}

/// Resolving right after a dispute restores `available` and `held` exactly:
/// the dispute moves the stored amount into `held`, the resolve moves it
/// back, and the history entry returns to its undisputed state, so the whole
/// model is back where it started.
pub proof fn lemma_resolve_undoes_dispute(
    m: EngineModel,
    dispute: TransactionRecord,
    resolve: TransactionRecord,
)
    requires
        m.wf(),
        dispute.tx_type == TransactionType::Dispute,
        resolve.tx_type == TransactionType::Resolve,
        resolve.client == dispute.client,
        resolve.tx == dispute.tx,
        m.transactions.contains_key(dispute.tx),
        m.transactions[dispute.tx].client == dispute.client,
        !m.transactions[dispute.tx].disputed,
        m.accounts.contains_key(dispute.client),
        !m.accounts[dispute.client].locked,
        m.transactions[dispute.tx].amount <= m.accounts[dispute.client].available,
    ensures
        m.apply(dispute).apply(resolve) == m,
{
    assert(m.apply(dispute).apply(resolve) =~= m);
}

/// A chargeback of a disputed transaction removes the stored amount from
/// `held` — never from `available` — reduces the total by exactly that
/// amount, locks the account, and finalizes the entry so it cannot be
/// charged back twice. No absence of a lock is required: a chargeback still
/// applies on an already locked account, which lets disputes opened before a
/// first chargeback run to completion.
pub proof fn lemma_chargeback_effect(m: EngineModel, record: TransactionRecord)
    requires
        m.wf(),
        record.tx_type == TransactionType::Chargeback,
        m.transactions.contains_key(record.tx),
        m.transactions[record.tx].client == record.client,
        m.transactions[record.tx].disputed,
        m.accounts.contains_key(record.client),
        m.transactions[record.tx].amount <= m.accounts[record.client].held,
    ensures
        ({
            let after = m.apply(record);
            let before = m.accounts[record.client];
            let amount = m.transactions[record.tx].amount;
            &&& after.accounts[record.client].available == before.available
            &&& after.accounts[record.client].held == before.held - amount
            &&& after.accounts[record.client].locked
            &&& after.accounts[record.client].spec_total() == before.spec_total() - amount
            &&& !after.transactions[record.tx].disputed
        }),
{
}

/// A lock is permanent: no later record of any kind unlocks an account.
pub proof fn lemma_lock_permanent(m: EngineModel, record: TransactionRecord, client: u16)
    requires
        m.accounts.contains_key(client),
        m.accounts[client].locked,
    ensures
        m.apply(record).accounts.contains_key(client),
        m.apply(record).accounts[client].locked,
{
}

/// On a locked account every record but a chargeback leaves the balances
/// untouched: a deposit still records history and a dispute still marks the
/// entry, but no funds move.
pub proof fn lemma_locked_balances_frozen(m: EngineModel, record: TransactionRecord)
    requires
        m.accounts.contains_key(record.client),
        m.accounts[record.client].locked,
        record.tx_type != TransactionType::Chargeback,
    ensures
        m.apply(record).accounts[record.client] == m.accounts[record.client],
{
}

/// The in-memory ledger engine.
pub struct PaymentEngine {
    accounts: HashMap<u16, Account>,
    transactions: HashMap<u32, StoredTransaction>,
    clients: Vec<u16>,
}

impl View for PaymentEngine {
    type V = EngineModel;

    closed spec fn view(&self) -> EngineModel {
        EngineModel {
            accounts: self.accounts@,
            transactions: self.transactions@,
            clients: self.clients@,
        }
    }
}

impl PaymentEngine {
    pub open spec fn wf(&self) -> bool {
        self@.wf()
    }

    pub fn new() -> (engine: PaymentEngine)
        ensures
            engine@ == EngineModel::empty(),
            engine.wf(),
    {
        let engine = PaymentEngine {
            accounts: HashMap::new(),
            transactions: HashMap::new(),
            clients: Vec::new(),
        };
        proof {
            assert(engine@ =~= EngineModel::empty());
        }
        engine
    }

    /// Replays one record. The state after the call is exactly
    /// `old(self)@.apply(record)`; the only error is a deposit or withdrawal
    /// that carries no amount, and an erroneous record changes nothing.
    pub fn process_transaction(&mut self, record: TransactionRecord) -> (result: Result<
        (),
        EngineError,
    >)
        requires
            old(self).wf(),
        ensures
            final(self).wf(),
            final(self)@ == old(self)@.apply(record),
            result is Ok <==> record_valid(record),
            result is Err ==> result == Err::<(), EngineError>(EngineError::MissingAmount),
    {
        if let Err(e) = record.validate() {
            return Err(e);
        }
        if !self.accounts.contains_key(&record.client) {
            self.accounts.insert(record.client, Account::new());
            self.clients.push(record.client);
        }
        let ghost m = old(self)@.ensure_client(record.client);
        proof {
            lemma_ensure_client_wf(old(self)@, record.client);
            assert(self@ =~= m);
        }
        let mut account = *self.accounts.get(&record.client).unwrap();
        match record.tx_type {
            TransactionType::Deposit => {
                let amount = record.amount.unwrap();
                account.deposit(amount);
                self.accounts.insert(record.client, account);
                self.transactions.insert(
                    record.tx,
                    StoredTransaction {
                        client: record.client,
                        amount,
                        tx_type: TransactionType::Deposit,
                        disputed: false,
                    },
                );
            },
            TransactionType::Withdrawal => {
                let amount = record.amount.unwrap();
                let applied = account.withdraw(amount);
                if applied {
                    self.accounts.insert(record.client, account);
                    self.transactions.insert(
                        record.tx,
                        StoredTransaction {
                            client: record.client,
                            amount,
                            tx_type: TransactionType::Withdrawal,
                            disputed: false,
                        },
                    );
                }
            },
            TransactionType::Dispute => {
                if let Some(entry_ref) = self.transactions.get(&record.tx) {
                    let entry = *entry_ref;
                    if entry.client == record.client && !entry.disputed {
                        account.hold_funds(entry.amount);
                        self.accounts.insert(record.client, account);
                        self.transactions.insert(
                            record.tx,
                            StoredTransaction { disputed: true, ..entry },
                        );
                    }
                }
            },
            TransactionType::Resolve => {
                if let Some(entry_ref) = self.transactions.get(&record.tx) {
                    let entry = *entry_ref;
                    if entry.client == record.client && entry.disputed {
                        account.release_funds(entry.amount);
                        self.accounts.insert(record.client, account);
                        self.transactions.insert(
                            record.tx,
                            StoredTransaction { disputed: false, ..entry },
                        );
                    }
                }
            },
            TransactionType::Chargeback => {
                if let Some(entry_ref) = self.transactions.get(&record.tx) {
                    let entry = *entry_ref;
                    if entry.client == record.client && entry.disputed {
                        account.chargeback(entry.amount);
                        self.accounts.insert(record.client, account);
                        self.transactions.insert(
                            record.tx,
                            StoredTransaction { disputed: false, ..entry },
                        );
                    }
                }
            },
        }
        proof {
            assert(self@ =~= old(self)@.apply(record));
            lemma_apply_wf(old(self)@, record);
        }
        Ok(())
    }

    /// One output row per known client, in the order the clients were first
    /// seen.
    pub fn get_accounts(&self) -> (rows: Vec<AccountOutput>)
        requires
            self.wf(),
        ensures
            rows@.len() == self@.clients.len(),
            forall|i: int|
                0 <= i < rows@.len() ==> rows@[i] == AccountOutput::spec_from(
                    self@.clients[i],
                    self@.accounts[self@.clients[i]],
                ),
    {
        let mut rows: Vec<AccountOutput> = Vec::new();
        let mut idx: usize = 0;
        while idx < self.clients.len()
            invariant
                self.wf(),
                idx <= self.clients.len(),
                rows@.len() == idx,
                forall|i: int|
                    0 <= i < idx ==> rows@[i] == AccountOutput::spec_from(
                        self@.clients[i],
                        self@.accounts[self@.clients[i]],
                    ),
            decreases self.clients.len() - idx,
        {
            let client = self.clients[idx];
            let account = self.accounts.get(&client).unwrap();
            rows.push(AccountOutput::from_account(client, account));
            idx = idx + 1;
        }
        rows
    }
}

} // verus!
