//! Transaction identifiers, the transaction manager, and the two sides that take
//! part in a transaction: the storage and the catalog.

use vstd::prelude::*;
use crate::ast::IsolationLevel;
use crate::catalog;
use crate::fault::Fault;

verus! {

/// The identifier of a transaction; zero stands for none.
#[derive(Clone, Copy, PartialEq, Eq, Debug, Structural)]
pub struct TxnId {
    pub id: u64,
}

impl View for TxnId {
    type V = u64;

    open spec fn view(&self) -> u64 {
        self.id
    }
}

impl Default for TxnId {
    fn default() -> (r: TxnId)
        ensures
            r@ == 0,
    {
        TxnId { id: 0 }
    }
}

impl TxnId {
    pub fn new(id: u64) -> (r: TxnId)
        ensures
            r@ == id,
    {
        TxnId { id }
    }

    pub fn get(&self) -> (r: u64)
        ensures
            r == self@,
    {
        self.id
    }

    /// Whether two identifiers are the same.
    pub fn is(&self, other: TxnId) -> (r: bool)
        ensures
            r == (*self == other),
    {
        self.id == other.id
    }
}

/// Two identifiers with the same number are the same.
pub proof fn law_txn_id(a: TxnId, b: TxnId)
    ensures
        a@ == b@ <==> a == b,
{
}

/// What a transaction sees: the transactions that began before `next` and are not
/// in `running`.
#[derive(Debug)]
pub struct Snapshot {
    pub least: TxnId,
    pub next: TxnId,
    pub running: Vec<TxnId>,
}

/// A transaction that has begun.
#[derive(Debug)]
pub struct ActiveTransaction {
    pub id: TxnId,
    pub isolation: IsolationLevel,
    pub start_ts: u64,
    pub snapshot: Snapshot,
}

/// How a transaction was committed.
#[derive(Clone, Copy, PartialEq, Eq, Debug, Structural)]
pub struct CommitResult {
    pub txn_id: TxnId,
    pub commit_ts: u64,
}

impl Snapshot {
    /// A copy of the snapshot.
    pub fn copy(&self) -> (r: Snapshot)
        ensures
            r.least == self.least,
            r.next == self.next,
            r.running@ == self.running@,
    {
        Snapshot {
            least: self.least,
            next: self.next,
            running: catalog::copy_values(&self.running),
        }
    }
}

/// A transaction manager that gives out identifiers in order and counts what it is
/// asked to do.
#[derive(Clone, Copy, Debug)]
pub struct CountingTransactionManager {
    next_txn_id: u64,
    begins: u64,
    commits: u64,
    rollbacks: u64,
}

/// What a transaction manager has counted, and the last identifier it gave out.
pub struct ManagerModel {
    pub last: u64,
    pub begins: u64,
    pub commits: u64,
    pub rollbacks: u64,
}

impl View for CountingTransactionManager {
    type V = ManagerModel;

    closed spec fn view(&self) -> ManagerModel {
        ManagerModel {
            last: self.next_txn_id,
            begins: self.begins,
            commits: self.commits,
            rollbacks: self.rollbacks,
        }
    }
}

/// One more, starting from zero again behind the greatest number.
pub open spec fn wrapping_next(n: u64) -> u64 {
    if n == u64::MAX {
        0
    } else {
        (n + 1) as u64
    }
}

/// One more, starting from zero again behind the greatest number.
pub fn one_more(n: u64) -> (r: u64)
    ensures
        r == wrapping_next(n),
{
    if n == u64::MAX {
        0
    } else {
        n + 1
    }
}

/// Whether a manager can begin one more transaction.
pub open spec fn can_begin(m: ManagerModel) -> bool {
    m.last < u64::MAX - 1
}

/// The manager after a transaction has begun.
pub open spec fn after_begin(m: ManagerModel) -> ManagerModel {
    ManagerModel { last: (m.last + 1) as u64, begins: wrapping_next(m.begins), ..m }
}

pub open spec fn after_commit(m: ManagerModel) -> ManagerModel {
    ManagerModel { commits: wrapping_next(m.commits), ..m }
}

pub open spec fn after_rollback(m: ManagerModel) -> ManagerModel {
    ManagerModel { rollbacks: wrapping_next(m.rollbacks), ..m }
}

impl Default for CountingTransactionManager {
    fn default() -> (r: CountingTransactionManager)
        ensures
            r@ == (ManagerModel { last: 0, begins: 0, commits: 0, rollbacks: 0 }),
    {
        CountingTransactionManager { next_txn_id: 0, begins: 0, commits: 0, rollbacks: 0 }
    }
}

impl CountingTransactionManager {
    /// How many transactions were begun, committed and rolled back.
    pub fn counts(&self) -> (r: (u64, u64, u64))
        ensures
            r == (self@.begins, self@.commits, self@.rollbacks),
    {
        (self.begins, self.commits, self.rollbacks)
    }

    /// Whether one more transaction can begin.
    pub fn has_identifiers(&self) -> (r: bool)
        ensures
            r == can_begin(self@),
    {
        self.next_txn_id < u64::MAX - 1
    }

    /// Begins a transaction: it gets the identifier behind the last one, and sees
    /// all that was begun before it.
    pub fn begin(&mut self, isolation: IsolationLevel) -> (r: ActiveTransaction)
        requires
            can_begin(old(self)@),
        ensures
            final(self)@ == after_begin(old(self)@),
            r.id@ == old(self)@.last + 1,
            r.isolation == isolation,
            r.start_ts == old(self)@.last,
            r.snapshot.least == r.id,
            r.snapshot.next@ == r.id@ + 1,
            r.snapshot.running@ == Seq::<TxnId>::empty(),
    {
        self.begins = one_more(self.begins);
        self.next_txn_id = self.next_txn_id + 1;
        let id: u64 = self.next_txn_id;
        ActiveTransaction {
            id: TxnId { id },
            isolation,
            start_ts: id - 1,
            snapshot: Snapshot {
                least: TxnId { id },
                next: TxnId { id: id + 1 },
                running: Vec::new(),
            },
        }
    }

    /// Commits a transaction at the time that its identifier gives.
    pub fn commit(&mut self, txn: TxnId) -> (r: CommitResult)
        ensures
            final(self)@ == after_commit(old(self)@),
            r.txn_id == txn,
            r.commit_ts == txn@,
    {
        self.commits = one_more(self.commits);
        CommitResult { txn_id: txn, commit_ts: txn.id }
    }

    /// Rolls a transaction back.
    pub fn rollback(&mut self, txn: TxnId)
        ensures
            final(self)@ == after_rollback(old(self)@),
    {
        self.rollbacks = one_more(self.rollbacks);
    }

    /// What a statement of a transaction sees: the same as the transaction.
    pub fn statement_snapshot(&self, txn: &ActiveTransaction) -> (r: Snapshot)
        ensures
            r.least == txn.snapshot.least,
            r.next == txn.snapshot.next,
            r.running@ == txn.snapshot.running@,
    {
        txn.snapshot.copy()
    }
}

/// What a checkpoint of a storage has done.
#[derive(Clone, Copy, PartialEq, Eq, Debug, Structural)]
pub struct CheckpointInfo {
    pub checkpoint_lsn: u64,
    pub dirty_pages_flushed: u64,
}

/// A storage side that keeps the savepoints of each transaction and records what
/// was done to them.
#[derive(Debug)]
pub struct RecordingSavepointStorageTxnParticipant {
    next_savepoint_id: u64,
    savepoints: Vec<(TxnId, u64)>,
    created: Vec<(TxnId, u64)>,
    released: Vec<(TxnId, u64)>,
    rolled_back: Vec<(TxnId, u64)>,
    rolled_back_txns: Vec<TxnId>,
}

/// What a recording storage side holds: the next identifier, the savepoints that
/// are there, and its records.
#[verifier::ext_equal]
pub struct StorageModel {
    pub next: u64,
    pub live: Seq<(TxnId, u64)>,
    pub created: Seq<(TxnId, u64)>,
    pub released: Seq<(TxnId, u64)>,
    pub rolled_back: Seq<(TxnId, u64)>,
    pub rolled_back_txns: Seq<TxnId>,
}

impl View for RecordingSavepointStorageTxnParticipant {
    type V = StorageModel;

    closed spec fn view(&self) -> StorageModel {
        StorageModel {
            next: self.next_savepoint_id,
            live: self.savepoints@,
            created: self.created@,
            released: self.released@,
            rolled_back: self.rolled_back@,
            rolled_back_txns: self.rolled_back_txns@,
        }
    }
}

/// Whether a savepoint stays when those of `txn` are dropped that have an
/// identifier of at least `bound`.
pub open spec fn stays(p: (TxnId, u64), txn: TxnId, bound: int) -> bool {
    p.0 != txn || p.1 < bound
}

/// The savepoints without those of `txn` that have an identifier of at least
/// `bound`.
pub open spec fn below(live: Seq<(TxnId, u64)>, txn: TxnId, bound: int) -> Seq<(TxnId, u64)>
    decreases live.len(),
{
    if live.len() == 0 {
        Seq::empty()
    } else if stays(live.last(), txn, bound) {
        below(live.drop_last(), txn, bound).push(live.last())
    } else {
        below(live.drop_last(), txn, bound)
    }
}

pub open spec fn storage_can_create(m: StorageModel) -> bool {
    m.next < u64::MAX
}

pub open spec fn storage_created(m: StorageModel, txn: TxnId) -> StorageModel {
    StorageModel {
        next: (m.next + 1) as u64,
        live: m.live.push((txn, m.next)),
        created: m.created.push((txn, m.next)),
        ..m
    }
}

/// The storage side after a rollback to a savepoint: later savepoints of the
/// transaction are gone.
pub open spec fn storage_rolled_back(m: StorageModel, txn: TxnId, id: u64) -> StorageModel {
    StorageModel {
        live: below(m.live, txn, id + 1),
        rolled_back: m.rolled_back.push((txn, id)),
        ..m
    }
}

/// The storage side after a savepoint was released: it and later savepoints of the
/// transaction are gone.
pub open spec fn storage_released(m: StorageModel, txn: TxnId, id: u64) -> StorageModel {
    StorageModel {
        live: below(m.live, txn, id as int),
        released: m.released.push((txn, id)),
        ..m
    }
}

/// The storage side after a transaction was rolled back: it has no savepoints.
pub open spec fn storage_ended(m: StorageModel, txn: TxnId) -> StorageModel {
    StorageModel {
        live: below(m.live, txn, 0),
        rolled_back_txns: m.rolled_back_txns.push(txn),
        ..m
    }
}

impl Default for RecordingSavepointStorageTxnParticipant {
    fn default() -> (r: RecordingSavepointStorageTxnParticipant)
        ensures
            r@ == (StorageModel {
                next: 0,
                live: Seq::empty(),
                created: Seq::empty(),
                released: Seq::empty(),
                rolled_back: Seq::empty(),
                rolled_back_txns: Seq::empty(),
            }),
    {
        RecordingSavepointStorageTxnParticipant {
            next_savepoint_id: 0,
            savepoints: Vec::new(),
            created: Vec::new(),
            released: Vec::new(),
            rolled_back: Vec::new(),
            rolled_back_txns: Vec::new(),
        }
    }
}

impl RecordingSavepointStorageTxnParticipant {
    /// The savepoints that were created, in order.
    pub fn created(&self) -> (r: Vec<(TxnId, u64)>)
        ensures
            r@ == self@.created,
    {
        catalog::copy_values(&self.created)
    }

    /// The savepoints that were released, in order.
    pub fn released(&self) -> (r: Vec<(TxnId, u64)>)
        ensures
            r@ == self@.released,
    {
        catalog::copy_values(&self.released)
    }

    /// The savepoints that were rolled back to, in order.
    pub fn rolled_back(&self) -> (r: Vec<(TxnId, u64)>)
        ensures
            r@ == self@.rolled_back,
    {
        catalog::copy_values(&self.rolled_back)
    }

    /// The transactions that were rolled back, in order.
    pub fn rolled_back_txns(&self) -> (r: Vec<TxnId>)
        ensures
            r@ == self@.rolled_back_txns,
    {
        catalog::copy_values(&self.rolled_back_txns)
    }

    /// Begins a transaction, of which nothing is recorded.
    pub fn begin_txn(&mut self, txn: TxnId, isolation: IsolationLevel) -> (r: Result<(), Fault>)
        ensures
            final(self)@ == old(self)@,
            r == Ok::<(), Fault>(()),
    {
        Ok(())
    }

    /// Commits a transaction, of which nothing is recorded.
    pub fn commit_txn(&mut self, txn: TxnId, commit_ts: u64) -> (r: Result<(), Fault>)
        ensures
            final(self)@ == old(self)@,
            r == Ok::<(), Fault>(()),
    {
        Ok(())
    }

    fn keep_below(&mut self, txn: TxnId, bound: Option<u64>)
        ensures
            final(self)@ == (StorageModel {
                live: below(
                    old(self)@.live,
                    txn,
                    match bound {
                        None => 0,
                        Some(b) => b as int,
                    },
                ),
                ..old(self)@
            }),
    {
        let ghost limit: int = match bound {
            None => 0,
            Some(b) => b as int,
        };
        let ghost live = self.savepoints@;
        let mut kept: Vec<(TxnId, u64)> = Vec::new();
        let mut i: usize = 0;
        while i < self.savepoints.len()
            invariant
                self@ == old(self)@,
                live == self.savepoints@,
                i <= self.savepoints.len(),
                kept@ == below(live.take(i as int), txn, limit),
                limit == (match bound {
                    None => 0,
                    Some(b) => b as int,
                }),
            decreases self.savepoints.len() - i,
        {
            proof {
                assert(live.take(i + 1).drop_last() =~= live.take(i as int));
            }
            let p: (TxnId, u64) = self.savepoints[i];
            let under: bool = match bound {
                None => false,
                Some(b) => p.1 < b,
            };
            if p.0.id != txn.id || under {
                kept.push(p);
            }
            i += 1;
        }
        proof {
            assert(live.take(i as int) =~= live);
        }
        self.savepoints = kept;
    }

    /// Drops the savepoints of a transaction and records its rollback.
    pub fn rollback_txn(&mut self, txn: TxnId) -> (r: Result<(), Fault>)
        ensures
            final(self)@ == storage_ended(old(self)@, txn),
            r == Ok::<(), Fault>(()),
    {
        self.keep_below(txn, None);
        self.rolled_back_txns.push(txn);
        Ok(())
    }

    /// A checkpoint, which has nothing to do.
    pub fn checkpoint(&self) -> (r: Result<CheckpointInfo, Fault>)
        ensures
            r == Ok::<CheckpointInfo, Fault>(
                CheckpointInfo { checkpoint_lsn: 0, dirty_pages_flushed: 0 },
            ),
    {
        Ok(CheckpointInfo { checkpoint_lsn: 0, dirty_pages_flushed: 0 })
    }

    /// Whether one more savepoint can be created.
    pub fn has_identifiers(&self) -> (r: bool)
        ensures
            r == storage_can_create(self@),
    {
        self.next_savepoint_id < u64::MAX
    }

    /// Creates a savepoint with the next identifier.
    pub fn create_savepoint(&mut self, txn: TxnId) -> (r: Result<u64, Fault>)
        requires
            storage_can_create(old(self)@),
        ensures
            final(self)@ == storage_created(old(self)@, txn),
            r == Ok::<u64, Fault>(old(self)@.next),
    {
        let id: u64 = self.next_savepoint_id;
        self.next_savepoint_id = id + 1;
        self.savepoints.push((txn, id));
        self.created.push((txn, id));
        Ok(id)
    }

    fn has(&self, txn: TxnId, id: u64) -> (r: bool)
        ensures
            r == self@.live.contains((txn, id)),
    {
        let mut i: usize = 0;
        while i < self.savepoints.len()
            invariant
                i <= self.savepoints.len(),
                forall|j: int| 0 <= j < i ==> self.savepoints@[j] != (txn, id),
            decreases self.savepoints.len() - i,
        {
            let p: (TxnId, u64) = self.savepoints[i];
            if p.0.id == txn.id && p.1 == id {
                assert(self.savepoints@[i as int] == (txn, id));
                return true;
            }
            i += 1;
        }
        false
    }

    /// Rolls back to a savepoint, which stays; refused if there is no such
    /// savepoint.
    pub fn rollback_to_savepoint(&mut self, txn: TxnId, savepoint_id: u64) -> (r: Result<(), Fault>)
        ensures
            if old(self)@.live.contains((txn, savepoint_id)) {
                final(self)@ == storage_rolled_back(old(self)@, txn, savepoint_id) && r == Ok::<
                    (),
                    Fault,
                >(())
            } else {
                final(self)@ == old(self)@ && r == Err::<(), Fault>(
                    Fault::StorageSavepointMissing,
                )
            },
    {
        if !self.has(txn, savepoint_id) {
            return Err(Fault::StorageSavepointMissing);
        }
        if savepoint_id < u64::MAX {
            self.keep_below(txn, Some(savepoint_id + 1));
        } else {
            proof {
                lemma_below_all(self@.live, txn);
            }
        }
        self.rolled_back.push((txn, savepoint_id));
        Ok(())
    }

    /// Releases a savepoint and those after it; refused if there is no such
    /// savepoint.
    pub fn release_savepoint(&mut self, txn: TxnId, savepoint_id: u64) -> (r: Result<(), Fault>)
        ensures
            if old(self)@.live.contains((txn, savepoint_id)) {
                final(self)@ == storage_released(old(self)@, txn, savepoint_id) && r == Ok::<
                    (),
                    Fault,
                >(())
            } else {
                final(self)@ == old(self)@ && r == Err::<(), Fault>(
                    Fault::StorageSavepointMissing,
                )
            },
    {
        if !self.has(txn, savepoint_id) {
            return Err(Fault::StorageSavepointMissing);
        }
        self.keep_below(txn, Some(savepoint_id));
        self.released.push((txn, savepoint_id));
        Ok(())
    }
}

proof fn lemma_below_all(live: Seq<(TxnId, u64)>, txn: TxnId)
    ensures
        below(live, txn, u64::MAX + 1) == live,
    decreases live.len(),
{
    if live.len() > 0 {
        lemma_below_all(live.drop_last(), txn);
        assert(live.drop_last().push(live.last()) =~= live);
    } else {
        assert(below(live, txn, u64::MAX + 1) =~= live);
    }
}

proof fn lemma_below_member(live: Seq<(TxnId, u64)>, txn: TxnId, bound: int, p: (TxnId, u64))
    ensures
        below(live, txn, bound).contains(p) <==> live.contains(p) && stays(p, txn, bound),
    decreases live.len(),
{
    if live.len() > 0 {
        let before = live.drop_last();
        let last = live.last();
        lemma_below_member(before, txn, bound, p);
        let b = below(before, txn, bound);
        if b.contains(p) {
            let i = choose|i: int| 0 <= i < b.len() && b[i] == p;
            assert(b.push(last)[i] == p);
        }
        if before.contains(p) {
            let i = choose|i: int| 0 <= i < before.len() && before[i] == p;
            assert(live[i] == p);
        }
        if p == last {
            assert(live[live.len() - 1] == p);
            assert(b.push(last)[b.len() as int] == p);
        }
        if live.contains(p) && p != last {
            let i = choose|i: int| 0 <= i < live.len() && live[i] == p;
            assert(before[i] == p);
        }
        if b.push(last).contains(p) && p != last {
            let i = choose|i: int| 0 <= i < b.push(last).len() && b.push(last)[i] == p;
            assert(b[i] == p);
        }
    }
}

/// A savepoint can be rolled back to again and again: it is still there after a
/// rollback to it, and a second rollback drops nothing more.
pub proof fn law_rollback_to_can_be_repeated(m: StorageModel, txn: TxnId, id: u64)
    requires
        m.live.contains((txn, id)),
    ensures
        storage_rolled_back(m, txn, id).live.contains((txn, id)),
        storage_rolled_back(storage_rolled_back(m, txn, id), txn, id).live == storage_rolled_back(
            m,
            txn,
            id,
        ).live,
{
    lemma_below_member(m.live, txn, id + 1, (txn, id));
    lemma_below_twice(m.live, txn, id + 1);
}

proof fn lemma_below_twice(live: Seq<(TxnId, u64)>, txn: TxnId, bound: int)
    ensures
        below(below(live, txn, bound), txn, bound) == below(live, txn, bound),
    decreases live.len(),
{
    if live.len() > 0 {
        lemma_below_twice(live.drop_last(), txn, bound);
        let b = below(live.drop_last(), txn, bound);
        if stays(live.last(), txn, bound) {
            assert(b.push(live.last()).drop_last() =~= b);
        }
    }
}

/// A released savepoint is gone, and those of other transactions stay.
pub proof fn law_released_is_gone(m: StorageModel, txn: TxnId, id: u64, other: TxnId, k: u64)
    ensures
        !storage_released(m, txn, id).live.contains((txn, id)),
        other != txn ==> (storage_released(m, txn, id).live.contains((other, k))
            <==> m.live.contains((other, k))),
{
    lemma_below_member(m.live, txn, id as int, (txn, id));
    lemma_below_member(m.live, txn, id as int, (other, k));
}

/// A catalog side that refuses every savepoint.
#[derive(Clone, Copy, Debug)]
pub struct FailingCreateCatalogTxnParticipant {}

/// A catalog side that refuses to roll back to its first savepoint.
#[derive(Debug)]
pub struct FailingRollbackCatalogTxnParticipant {
    next_savepoint_id: u64,
    released: Vec<(TxnId, u64)>,
    rolled_back_txns: Vec<TxnId>,
}

/// A catalog side that refuses to release savepoints.
#[derive(Clone, Copy, Debug)]
pub struct FailingReleaseCatalogTxnParticipant {
    next_savepoint_id: u64,
}

impl Default for FailingCreateCatalogTxnParticipant {
    fn default() -> FailingCreateCatalogTxnParticipant {
        FailingCreateCatalogTxnParticipant {  }
    }
}

impl FailingCreateCatalogTxnParticipant {
    pub fn begin_txn(&mut self, txn: TxnId) -> (r: Result<(), Fault>)
        ensures
            r == Ok::<(), Fault>(()),
    {
        Ok(())
    }

    pub fn commit_txn(&mut self, txn: TxnId) -> (r: Result<(), Fault>)
        ensures
            r == Ok::<(), Fault>(()),
    {
        Ok(())
    }

    pub fn rollback_txn(&mut self, txn: TxnId) -> (r: Result<(), Fault>)
        ensures
            r == Ok::<(), Fault>(()),
    {
        Ok(())
    }

    /// Refuses the savepoint.
    pub fn create_savepoint(&mut self, txn: TxnId) -> (r: Result<u64, Fault>)
        ensures
            r == Err::<u64, Fault>(Fault::CatalogCreateRefused),
    {
        Err(Fault::CatalogCreateRefused)
    }
}

/// What a catalog side that refuses rollbacks holds.
#[verifier::ext_equal]
pub struct FailingRollbackModel {
    pub next: u64,
    pub released: Seq<(TxnId, u64)>,
    pub rolled_back_txns: Seq<TxnId>,
}

impl View for FailingRollbackCatalogTxnParticipant {
    type V = FailingRollbackModel;

    closed spec fn view(&self) -> FailingRollbackModel {
        FailingRollbackModel {
            next: self.next_savepoint_id,
            released: self.released@,
            rolled_back_txns: self.rolled_back_txns@,
        }
    }
}

impl Default for FailingRollbackCatalogTxnParticipant {
    fn default() -> (r: FailingRollbackCatalogTxnParticipant)
        ensures
            r@ == (FailingRollbackModel {
                next: 0,
                released: Seq::empty(),
                rolled_back_txns: Seq::empty(),
            }),
    {
        FailingRollbackCatalogTxnParticipant {
            next_savepoint_id: 0,
            released: Vec::new(),
            rolled_back_txns: Vec::new(),
        }
    }
}

impl FailingRollbackCatalogTxnParticipant {
    /// The savepoints that were released, in order.
    pub fn released(&self) -> (r: Vec<(TxnId, u64)>)
        ensures
            r@ == self@.released,
    {
        catalog::copy_values(&self.released)
    }

    /// The transactions that were rolled back, in order.
    pub fn rolled_back_txns(&self) -> (r: Vec<TxnId>)
        ensures
            r@ == self@.rolled_back_txns,
    {
        catalog::copy_values(&self.rolled_back_txns)
    }

    pub fn begin_txn(&mut self, txn: TxnId) -> (r: Result<(), Fault>)
        ensures
            final(self)@ == old(self)@,
            r == Ok::<(), Fault>(()),
    {
        Ok(())
    }

    pub fn commit_txn(&mut self, txn: TxnId) -> (r: Result<(), Fault>)
        ensures
            final(self)@ == old(self)@,
            r == Ok::<(), Fault>(()),
    {
        Ok(())
    }

    /// Records the rollback of a transaction.
    pub fn rollback_txn(&mut self, txn: TxnId) -> (r: Result<(), Fault>)
        ensures
            final(self)@ == (FailingRollbackModel {
                rolled_back_txns: old(self)@.rolled_back_txns.push(txn),
                ..old(self)@
            }),
            r == Ok::<(), Fault>(()),
    {
        self.rolled_back_txns.push(txn);
        Ok(())
    }

    /// Whether one more savepoint can be created.
    pub fn has_identifiers(&self) -> (r: bool)
        ensures
            r == (self@.next < u64::MAX),
    {
        self.next_savepoint_id < u64::MAX
    }

    /// Creates a savepoint with the next identifier.
    pub fn create_savepoint(&mut self, txn: TxnId) -> (r: Result<u64, Fault>)
        requires
            old(self)@.next < u64::MAX,
        ensures
            final(self)@ == (FailingRollbackModel {
                next: (old(self)@.next + 1) as u64,
                ..old(self)@
            }),
            r == Ok::<u64, Fault>(old(self)@.next),
    {
        let id: u64 = self.next_savepoint_id;
        self.next_savepoint_id = id + 1;
        Ok(id)
    }

    /// Refuses to roll back to the savepoint with the identifier zero.
    pub fn rollback_to_savepoint(&mut self, txn: TxnId, savepoint_id: u64) -> (r: Result<(), Fault>)
        ensures
            final(self)@ == old(self)@,
            r == (if savepoint_id == 0 {
                Err::<(), Fault>(Fault::CatalogRollbackRefused)
            } else {
                Ok::<(), Fault>(())
            }),
    {
        if savepoint_id == 0 {
            Err(Fault::CatalogRollbackRefused)
        } else {
            Ok(())
        }
    }

    /// Records the release of a savepoint.
    pub fn release_savepoint(&mut self, txn: TxnId, savepoint_id: u64) -> (r: Result<(), Fault>)
        ensures
            final(self)@ == (FailingRollbackModel {
                released: old(self)@.released.push((txn, savepoint_id)),
                ..old(self)@
            }),
            r == Ok::<(), Fault>(()),
    {
        self.released.push((txn, savepoint_id));
        Ok(())
    }
}

impl View for FailingReleaseCatalogTxnParticipant {
    type V = u64;

    /// The identifier of the next savepoint.
    closed spec fn view(&self) -> u64 {
        self.next_savepoint_id
    }
}

impl Default for FailingReleaseCatalogTxnParticipant {
    fn default() -> (r: FailingReleaseCatalogTxnParticipant)
        ensures
            r@ == 0,
    {
        FailingReleaseCatalogTxnParticipant { next_savepoint_id: 0 }
    }
}

impl FailingReleaseCatalogTxnParticipant {
    pub fn begin_txn(&mut self, txn: TxnId) -> (r: Result<(), Fault>)
        ensures
            final(self)@ == old(self)@,
            r == Ok::<(), Fault>(()),
    {
        Ok(())
    }

    pub fn commit_txn(&mut self, txn: TxnId) -> (r: Result<(), Fault>)
        ensures
            final(self)@ == old(self)@,
            r == Ok::<(), Fault>(()),
    {
        Ok(())
    }

    pub fn rollback_txn(&mut self, txn: TxnId) -> (r: Result<(), Fault>)
        ensures
            final(self)@ == old(self)@,
            r == Ok::<(), Fault>(()),
    {
        Ok(())
    }

    /// Whether one more savepoint can be created.
    pub fn has_identifiers(&self) -> (r: bool)
        ensures
            r == (self@ < u64::MAX),
    {
        self.next_savepoint_id < u64::MAX
    }

    /// Creates a savepoint with the next identifier.
    pub fn create_savepoint(&mut self, txn: TxnId) -> (r: Result<u64, Fault>)
        requires
            old(self)@ < u64::MAX,
        ensures
            final(self)@ == old(self)@ + 1,
            r == Ok::<u64, Fault>(old(self)@),
    {
        let id: u64 = self.next_savepoint_id;
        self.next_savepoint_id = id + 1;
        Ok(id)
    }

    /// Refuses to release the savepoint.
    pub fn release_savepoint(&mut self, txn: TxnId, savepoint_id: u64) -> (r: Result<(), Fault>)
        ensures
            final(self)@ == old(self)@,
            r == Err::<(), Fault>(Fault::CatalogReleaseRefused),
    {
        Err(Fault::CatalogReleaseRefused)
    }
}

/// The storage side of an engine.
#[derive(Debug)]
pub enum StorageSide {
    Plain,
    Recording(RecordingSavepointStorageTxnParticipant),
}

pub enum StorageSideModel {
    Plain,
    Recording(StorageModel),
}

impl View for StorageSide {
    type V = StorageSideModel;

    open spec fn view(&self) -> StorageSideModel {
        match self {
            StorageSide::Plain => StorageSideModel::Plain,
            StorageSide::Recording(p) => StorageSideModel::Recording(p@),
        }
    }
}

/// The catalog side of an engine.
#[derive(Debug)]
pub enum CatalogSide {
    Plain,
    FailingCreate(FailingCreateCatalogTxnParticipant),
    FailingRollback(FailingRollbackCatalogTxnParticipant),
    FailingRelease(FailingReleaseCatalogTxnParticipant),
}

pub enum CatalogSideModel {
    Plain,
    FailingCreate,
    FailingRollback(FailingRollbackModel),
    FailingRelease(u64),
}

impl View for CatalogSide {
    type V = CatalogSideModel;

    open spec fn view(&self) -> CatalogSideModel {
        match self {
            CatalogSide::Plain => CatalogSideModel::Plain,
            CatalogSide::FailingCreate(_) => CatalogSideModel::FailingCreate,
            CatalogSide::FailingRollback(p) => CatalogSideModel::FailingRollback(p@),
            CatalogSide::FailingRelease(p) => CatalogSideModel::FailingRelease(p@),
        }
    }
}

/// The outcome of a request to a side: the side afterwards, and its answer.
pub open spec fn storage_create(m: StorageSideModel, txn: TxnId) -> (
    StorageSideModel,
    Result<u64, Fault>,
) {
    match m {
        StorageSideModel::Plain => (m, Ok(0)),
        StorageSideModel::Recording(p) => if storage_can_create(p) {
            (StorageSideModel::Recording(storage_created(p, txn)), Ok(p.next))
        } else {
            (m, Err(Fault::IdentifiersExhausted))
        },
    }
}

pub open spec fn storage_rollback_to(m: StorageSideModel, txn: TxnId, id: u64) -> (
    StorageSideModel,
    Result<(), Fault>,
) {
    match m {
        StorageSideModel::Plain => (m, Ok(())),
        StorageSideModel::Recording(p) => if p.live.contains((txn, id)) {
            (StorageSideModel::Recording(storage_rolled_back(p, txn, id)), Ok(()))
        } else {
            (m, Err(Fault::StorageSavepointMissing))
        },
    }
}

pub open spec fn storage_release(m: StorageSideModel, txn: TxnId, id: u64) -> (
    StorageSideModel,
    Result<(), Fault>,
) {
    match m {
        StorageSideModel::Plain => (m, Ok(())),
        StorageSideModel::Recording(p) => if p.live.contains((txn, id)) {
            (StorageSideModel::Recording(storage_released(p, txn, id)), Ok(()))
        } else {
            (m, Err(Fault::StorageSavepointMissing))
        },
    }
}

pub open spec fn storage_end(m: StorageSideModel, txn: TxnId) -> StorageSideModel {
    match m {
        StorageSideModel::Plain => m,
        StorageSideModel::Recording(p) => StorageSideModel::Recording(storage_ended(p, txn)),
    }
}

pub open spec fn catalog_create(m: CatalogSideModel, txn: TxnId) -> (
    CatalogSideModel,
    Result<u64, Fault>,
) {
    match m {
        CatalogSideModel::Plain => (m, Ok(0)),
        CatalogSideModel::FailingCreate => (m, Err(Fault::CatalogCreateRefused)),
        CatalogSideModel::FailingRollback(p) => if p.next < u64::MAX {
            (
                CatalogSideModel::FailingRollback(
                    FailingRollbackModel { next: (p.next + 1) as u64, ..p },
                ),
                Ok(p.next),
            )
        } else {
            (m, Err(Fault::IdentifiersExhausted))
        },
        CatalogSideModel::FailingRelease(n) => if n < u64::MAX {
            (CatalogSideModel::FailingRelease((n + 1) as u64), Ok(n))
        } else {
            (m, Err(Fault::IdentifiersExhausted))
        },
    }
}

pub open spec fn catalog_rollback_to(m: CatalogSideModel, id: u64) -> Result<(), Fault> {
    match m {
        CatalogSideModel::FailingRollback(_) => if id == 0 {
            Err(Fault::CatalogRollbackRefused)
        } else {
            Ok(())
        },
        _ => Ok(()),
    }
}

pub open spec fn catalog_release(m: CatalogSideModel, txn: TxnId, id: u64) -> (
    CatalogSideModel,
    Result<(), Fault>,
) {
    match m {
        CatalogSideModel::FailingRollback(p) => (
            CatalogSideModel::FailingRollback(
                FailingRollbackModel { released: p.released.push((txn, id)), ..p },
            ),
            Ok(()),
        ),
        CatalogSideModel::FailingRelease(_) => (m, Err(Fault::CatalogReleaseRefused)),
        _ => (m, Ok(())),
    }
}

pub open spec fn catalog_end(m: CatalogSideModel, txn: TxnId) -> CatalogSideModel {
    match m {
        CatalogSideModel::FailingRollback(p) => CatalogSideModel::FailingRollback(
            FailingRollbackModel { rolled_back_txns: p.rolled_back_txns.push(txn), ..p },
        ),
        _ => m,
    }
}

impl StorageSide {
    pub fn create(&mut self, txn: TxnId) -> (r: Result<u64, Fault>)
        ensures
            (final(self)@, r) == storage_create(old(self)@, txn),
    {
        match self {
            StorageSide::Plain => Ok(0),
            StorageSide::Recording(p) => if p.has_identifiers() {
                p.create_savepoint(txn)
            } else {
                Err(Fault::IdentifiersExhausted)
            },
        }
    }

    pub fn rollback_to(&mut self, txn: TxnId, id: u64) -> (r: Result<(), Fault>)
        ensures
            (final(self)@, r) == storage_rollback_to(old(self)@, txn, id),
    {
        match self {
            StorageSide::Plain => Ok(()),
            StorageSide::Recording(p) => p.rollback_to_savepoint(txn, id),
        }
    }

    pub fn release(&mut self, txn: TxnId, id: u64) -> (r: Result<(), Fault>)
        ensures
            (final(self)@, r) == storage_release(old(self)@, txn, id),
    {
        match self {
            StorageSide::Plain => Ok(()),
            StorageSide::Recording(p) => p.release_savepoint(txn, id),
        }
    }

    pub fn end(&mut self, txn: TxnId)
        ensures
            final(self)@ == storage_end(old(self)@, txn),
    {
        match self {
            StorageSide::Plain => {},
            StorageSide::Recording(p) => {
                let _: Result<(), Fault> = p.rollback_txn(txn);
            },
        }
    }
}

impl CatalogSide {
    pub fn create(&mut self, txn: TxnId) -> (r: Result<u64, Fault>)
        ensures
            (final(self)@, r) == catalog_create(old(self)@, txn),
    {
        match self {
            CatalogSide::Plain => Ok(0),
            CatalogSide::FailingCreate(p) => p.create_savepoint(txn),
            CatalogSide::FailingRollback(p) => if p.has_identifiers() {
                p.create_savepoint(txn)
            } else {
                Err(Fault::IdentifiersExhausted)
            },
            CatalogSide::FailingRelease(p) => if p.has_identifiers() {
                p.create_savepoint(txn)
            } else {
                Err(Fault::IdentifiersExhausted)
            },
        }
    }

    pub fn rollback_to(&mut self, txn: TxnId, id: u64) -> (r: Result<(), Fault>)
        ensures
            final(self)@ == old(self)@,
            r == catalog_rollback_to(old(self)@, id),
    {
        match self {
            CatalogSide::FailingRollback(p) => p.rollback_to_savepoint(txn, id),
            _ => Ok(()),
        }
    }

    pub fn release(&mut self, txn: TxnId, id: u64) -> (r: Result<(), Fault>)
        ensures
            (final(self)@, r) == catalog_release(old(self)@, txn, id),
    {
        match self {
            CatalogSide::FailingRollback(p) => p.release_savepoint(txn, id),
            CatalogSide::FailingRelease(p) => p.release_savepoint(txn, id),
            _ => Ok(()),
        }
    }

    pub fn end(&mut self, txn: TxnId)
        ensures
            final(self)@ == catalog_end(old(self)@, txn),
    {
        match self {
            CatalogSide::FailingRollback(p) => {
                let _: Result<(), Fault> = p.rollback_txn(txn);
            },
            _ => {},
        }
    }
}

} // verus!
