use vstd::prelude::*;
use crate::amount::{decimal_parses, parse_amount, Amount};
use crate::time::Timestamp;

verus! {

/// A category as supplied in an import batch.
pub struct ImportCategory {
    pub name: String,
    pub created_at: Timestamp,
}

/// A transaction as supplied in an import batch; it names its category.
/// The amount is decimal text, converted to the storage decimal type during
/// the import.
pub struct ImportTransaction {
    pub category: ImportCategory,
    pub description: String,
    pub amount: String,
    pub created_at: Timestamp,
}

/// A batch of categories and transactions to be stored all together or not
/// at all.
pub struct ImportPayload {
    pub categories: Vec<ImportCategory>,
    pub transactions: Vec<ImportTransaction>,
}

/// Why an import was abandoned.
#[derive(Clone, Copy, Debug, PartialEq, Eq, Structural)]
pub enum ImportError {
    /// A transaction names a category that the batch does not hold.
    UnresolvedCategory,
    /// A transaction's amount is not a decimal number.
    InvalidAmount,
    /// The store failed, or could not commit.
    PersistenceError,
}

impl ImportError {
    /// The HTTP status of the error: the batch's own faults are the client's
    /// (400), the store's failures the server's (500).
    pub fn status(&self) -> (r: u16)
        ensures
            *self is PersistenceError ==> r == 500,
            !(*self is PersistenceError) ==> r == 400,
    {
        match self {
            ImportError::UnresolvedCategory => 400,
            ImportError::InvalidAmount => 400,
            ImportError::PersistenceError => 500,
        }
    }
}

/// What the store reports back after performing the last action.
#[derive(Clone, Copy, Debug, PartialEq, Eq)]
pub enum ImportEvent {
    /// The caller asks the session to begin.
    Start,
    /// The store transaction is open.
    Opened,
    /// The category upsert succeeded and returned the row's id.
    CategoryStored(i32),
    /// The transaction row was inserted.
    TransactionStored,
    /// The store transaction was committed.
    Committed,
    /// The store transaction was rolled back.
    RolledBack,
    /// The last store operation failed.
    StorageFailed,
}

/// Where an import session stands.
#[derive(Clone, Copy, Debug, PartialEq, Eq)]
pub enum ImportPhase {
    Ready,
    Opening,
    Categories,
    Transactions,
    Committing,
    RollingBack(ImportError),
    Done(Result<(), ImportError>),
}

/// The next store operation that the caller must perform, or the outcome.
pub enum ImportAction {
    /// Open one store transaction for the whole import.
    Begin,
    /// Insert the category for the user, or keep the existing row of that
    /// (user, name) pair, and report its id.
    UpsertCategory { user_id: u128, name: String, created_at: Timestamp },
    /// Insert one transaction row; the amount is the one read from the
    /// batch transaction's text.
    InsertTransaction {
        user_id: u128,
        category_id: i32,
        description: String,
        amount: Amount,
        created_at: Timestamp,
    },
    /// Commit the store transaction.
    Commit,
    /// Roll the store transaction back.
    Rollback,
    /// The import is over, with this outcome.
    Finish(Result<(), ImportError>),
}

/// The abstract content of an action: which batch entry it concerns.
#[derive(PartialEq, Eq)]
pub enum StepView {
    Begin,
    /// Upsert of the batch category at this index.
    Upsert(nat),
    /// Insert of the batch transaction at this index, under this category id.
    Insert(nat, i32),
    Commit,
    Rollback,
    Finish(Result<(), ImportError>),
}

/// The abstract state of an import session.
pub struct ImportState {
    pub phase: ImportPhase,
    /// The ids returned so far for the batch categories, in batch order.
    pub category_ids: Seq<i32>,
    /// Index of the transaction being stored.
    pub next_transaction: nat,
}

/// The id mapped to `name` after the first `n` category upserts: the id of the
/// last of them whose category bears that name (later upserts overwrite earlier
/// ones), matched case-sensitively.
pub open spec fn lookup_category(
    cats: Seq<ImportCategory>,
    ids: Seq<i32>,
    name: Seq<char>,
    n: nat,
) -> Option<i32>
    decreases n,
{
    if n == 0 {
        None
    } else if cats[n - 1].name@ == name {
        Some(ids[n - 1])
    } else {
        lookup_category(cats, ids, name, (n - 1) as nat)
    }
}

/// The category id that transaction `j` is stored under, or why it cannot be.
pub open spec fn transaction_outcome(p: ImportPayload, ids: Seq<i32>, j: int) -> Result<
    i32,
    ImportError,
> {
    let t = p.transactions@[j];
    match lookup_category(p.categories@, ids, t.category.name@, ids.len()) {
        None => Err(ImportError::UnresolvedCategory),
        Some(id) => if decimal_parses(t.amount@) {
            Ok(id)
        } else {
            Err(ImportError::InvalidAmount)
        },
    }
}

/// Goes on with the transactions from index `j`: insert the next one, or
/// abandon on the first that cannot be stored, or commit after the last.
pub open spec fn continue_transactions(p: ImportPayload, ids: Seq<i32>, j: nat) -> (
    ImportState,
    StepView,
) {
    if j >= p.transactions@.len() {
        (
            ImportState { phase: ImportPhase::Committing, category_ids: ids, next_transaction: j },
            StepView::Commit,
        )
    } else {
        match transaction_outcome(p, ids, j as int) {
            Ok(id) => (
                ImportState {
                    phase: ImportPhase::Transactions,
                    category_ids: ids,
                    next_transaction: j,
                },
                StepView::Insert(j, id),
            ),
            Err(e) => (
                ImportState {
                    phase: ImportPhase::RollingBack(e),
                    category_ids: ids,
                    next_transaction: j,
                },
                StepView::Rollback,
            ),
        }
    }
}

/// Goes on with the categories once `ids` holds the ids of the first ones.
pub open spec fn continue_categories(p: ImportPayload, ids: Seq<i32>) -> (ImportState, StepView) {
    if ids.len() < p.categories@.len() {
        (
            ImportState { phase: ImportPhase::Categories, category_ids: ids, next_transaction: 0 },
            StepView::Upsert(ids.len()),
        )
    } else {
        continue_transactions(p, ids, 0)
    }
}

/// Abandons the open store transaction with the given error.
pub open spec fn abandon(s: ImportState, e: ImportError) -> (ImportState, StepView) {
    (ImportState { phase: ImportPhase::RollingBack(e), ..s }, StepView::Rollback)
}

/// Ends the session with the given outcome.
pub open spec fn finish(s: ImportState, r: Result<(), ImportError>) -> (ImportState, StepView) {
    (ImportState { phase: ImportPhase::Done(r), ..s }, StepView::Finish(r))
}

/// The transition of an import session on one event.
pub open spec fn next_step(p: ImportPayload, s: ImportState, e: ImportEvent) -> (
    ImportState,
    StepView,
) {
    match s.phase {
        ImportPhase::Ready => (ImportState { phase: ImportPhase::Opening, ..s }, StepView::Begin),
        ImportPhase::Opening => match e {
            ImportEvent::Opened => continue_categories(p, Seq::empty()),
            _ => finish(s, Err(ImportError::PersistenceError)),
        },
        ImportPhase::Categories => match e {
            ImportEvent::CategoryStored(id) => continue_categories(p, s.category_ids.push(id)),
            _ => abandon(s, ImportError::PersistenceError),
        },
        ImportPhase::Transactions => match e {
            ImportEvent::TransactionStored => continue_transactions(
                p,
                s.category_ids,
                s.next_transaction + 1,
            ),
            _ => abandon(s, ImportError::PersistenceError),
        },
        ImportPhase::Committing => match e {
            ImportEvent::Committed => finish(s, Ok(())),
            _ => finish(s, Err(ImportError::PersistenceError)),
        },
        ImportPhase::RollingBack(err) => finish(s, Err(err)),
        ImportPhase::Done(r) => finish(s, r),
    }
}

/// The state in which every session starts.
pub open spec fn initial_state() -> ImportState {
    ImportState { phase: ImportPhase::Ready, category_ids: Seq::empty(), next_transaction: 0 }
}

/// The actions that a session issues, from state `s`, on a sequence of events.
pub open spec fn run_steps(p: ImportPayload, s: ImportState, events: Seq<ImportEvent>) -> Seq<
    StepView,
>
    decreases events.len(),
{
    if events.len() == 0 {
        Seq::empty()
    } else {
        let (s2, v) = next_step(p, s, events[0]);
        seq![v] + run_steps(p, s2, events.drop_first())
    }
}

/// Whether an action carries out the abstract step `v` of the batch `p` for
/// the user `user_id`.
pub open spec fn action_matches(a: ImportAction, user_id: u128, p: ImportPayload, v: StepView) -> bool {
    match v {
        StepView::Begin => a is Begin,
        StepView::Upsert(i) => match a {
            ImportAction::UpsertCategory { user_id: u, name, created_at } => {
                &&& u == user_id
                &&& name@ == p.categories@[i as int].name@
                &&& created_at == p.categories@[i as int].created_at
            },
            _ => false,
        },
        StepView::Insert(j, id) => match a {
            ImportAction::InsertTransaction {
                user_id: u,
                category_id,
                description,
                amount,
                created_at,
            } => {
                &&& u == user_id
                &&& category_id == id
                &&& description@ == p.transactions@[j as int].description@
                &&& amount.source() == p.transactions@[j as int].amount@
                &&& created_at == p.transactions@[j as int].created_at
            },
            _ => false,
        },
        StepView::Commit => a is Commit,
        StepView::Rollback => a is Rollback,
        StepView::Finish(r) => a == ImportAction::Finish(r),
    }
}

/// One bulk import for one user, as a state machine: the caller performs each
/// action on the store inside one store transaction and reports the event back.
pub struct ImportSession {
    user_id: u128,
    payload: ImportPayload,
    phase: ImportPhase,
    /// The id returned for each batch category so far, by batch position.
    /// Names are resolved by searching it from the latest upsert back, which
    /// gives the same last-write-wins mapping as a map from name to id would,
    /// in a form whose contents the proofs can follow (a map keyed by
    /// `String` is opaque to them).
    category_ids: Vec<i32>,
    next_transaction: usize,
}

impl ImportSession {
    pub closed spec fn user(self) -> u128 {
        self.user_id
    }

    pub closed spec fn batch(self) -> ImportPayload {
        self.payload
    }

    pub closed spec fn state(self) -> ImportState {
        ImportState {
            phase: self.phase,
            category_ids: self.category_ids@,
            next_transaction: self.next_transaction as nat,
        }
    }

    /// The ids never outnumber the categories; while categories are being
    /// stored some remain, and once transactions are being stored all have
    /// their id and the transaction index in use names a transaction.
    pub closed spec fn wf(self) -> bool {
        let n = self.category_ids@.len();
        let cats = self.payload.categories@.len();
        &&& n <= cats
        &&& (self.phase is Ready || self.phase is Opening ==> n == 0)
        &&& (self.phase is Categories ==> n < cats)
        &&& (self.phase is Transactions ==> n == cats && self.next_transaction
            < self.payload.transactions@.len())
        &&& (self.phase is Committing ==> n == cats)
    }

    /// A session for `user_id` that will store `payload`.
    pub fn new(user_id: u128, payload: ImportPayload) -> (r: ImportSession)
        ensures
            r.wf(),
            r.user() == user_id,
            r.batch() == payload,
            r.state() == initial_state(),
    {
        let r = ImportSession {
            user_id,
            payload,
            phase: ImportPhase::Ready,
            category_ids: Vec::new(),
            next_transaction: 0,
        };
        assert(r.state().category_ids =~= Seq::<i32>::empty());
        r
    }

    /// The id that the categories stored so far map `name` to.
    fn find_category(&self, name: &String) -> (r: Option<i32>)
        requires
            self.category_ids@.len() <= self.payload.categories@.len(),
        ensures
            r == lookup_category(
                self.payload.categories@,
                self.category_ids@,
                name@,
                self.category_ids@.len(),
            ),
    {
        let mut n: usize = self.category_ids.len();
        while n > 0
            invariant
                n <= self.category_ids@.len() <= self.payload.categories@.len(),
                lookup_category(
                    self.payload.categories@,
                    self.category_ids@,
                    name@,
                    self.category_ids@.len(),
                ) == lookup_category(
                    self.payload.categories@,
                    self.category_ids@,
                    name@,
                    n as nat,
                ),
            decreases n,
        {
            if self.payload.categories[n - 1].name == *name {
                return Some(self.category_ids[n - 1]);
            }
            n = n - 1;
        }
        None
    }

    /// Goes on with the transactions from index `j`.
    fn continue_transactions(&mut self, j: usize) -> (a: ImportAction)
        requires
            old(self).category_ids@.len() == old(self).payload.categories@.len(),
            j <= old(self).payload.transactions@.len(),
        ensures
            final(self).wf(),
            final(self).user() == old(self).user(),
            final(self).batch() == old(self).batch(),
            final(self).state() == continue_transactions(
                old(self).batch(),
                old(self).state().category_ids,
                j as nat,
            ).0,
            action_matches(
                a,
                old(self).user(),
                old(self).batch(),
                continue_transactions(old(self).batch(), old(self).state().category_ids, j as nat).1,
            ),
    {
        self.next_transaction = j;
        if j >= self.payload.transactions.len() {
            self.phase = ImportPhase::Committing;
            return ImportAction::Commit;
        }
        let found = self.find_category(&self.payload.transactions[j].category.name);
        match found {
            None => {
                self.phase = ImportPhase::RollingBack(ImportError::UnresolvedCategory);
                ImportAction::Rollback
            },
            Some(id) => {
                let t = &self.payload.transactions[j];
                match parse_amount(t.amount.as_str()) {
                    None => {
                        self.phase = ImportPhase::RollingBack(ImportError::InvalidAmount);
                        ImportAction::Rollback
                    },
                    Some(amount) => {
                        let description = t.description.clone();
                        let created_at = t.created_at;
                        self.phase = ImportPhase::Transactions;
                        ImportAction::InsertTransaction {
                            user_id: self.user_id,
                            category_id: id,
                            description,
                            amount,
                            created_at,
                        }
                    },
                }
            },
        }
    }

    /// Goes on with the categories: upsert the next one, or turn to the
    /// transactions once every category has its id.
    fn continue_categories(&mut self) -> (a: ImportAction)
        requires
            old(self).category_ids@.len() <= old(self).payload.categories@.len(),
        ensures
            final(self).wf(),
            final(self).user() == old(self).user(),
            final(self).batch() == old(self).batch(),
            final(self).state() == continue_categories(
                old(self).batch(),
                old(self).state().category_ids,
            ).0,
            action_matches(
                a,
                old(self).user(),
                old(self).batch(),
                continue_categories(old(self).batch(), old(self).state().category_ids).1,
            ),
    {
        let n = self.category_ids.len();
        if n < self.payload.categories.len() {
            self.phase = ImportPhase::Categories;
            self.next_transaction = 0;
            let c = &self.payload.categories[n];
            ImportAction::UpsertCategory {
                user_id: self.user_id,
                name: c.name.clone(),
                created_at: c.created_at,
            }
        } else {
            self.continue_transactions(0)
        }
    }

    /// Advances the session on the event that the last action produced and
    /// returns the next action. Every store write that it asks for carries
    /// this session's user.
    pub fn step(&mut self, event: ImportEvent) -> (a: ImportAction)
        requires
            old(self).wf(),
        ensures
            final(self).wf(),
            final(self).user() == old(self).user(),
            final(self).batch() == old(self).batch(),
            final(self).state() == next_step(old(self).batch(), old(self).state(), event).0,
            action_matches(
                a,
                old(self).user(),
                old(self).batch(),
                next_step(old(self).batch(), old(self).state(), event).1,
            ),
    {
        match self.phase {
            ImportPhase::Ready => {
                self.phase = ImportPhase::Opening;
                ImportAction::Begin
            },
            ImportPhase::Opening => match event {
                ImportEvent::Opened => {
                    proof {
                        assert(self.category_ids@ =~= Seq::<i32>::empty());
                    }
                    self.continue_categories()
                },
                _ => {
                    self.phase = ImportPhase::Done(Err(ImportError::PersistenceError));
                    ImportAction::Finish(Err(ImportError::PersistenceError))
                },
            },
            ImportPhase::Categories => match event {
                ImportEvent::CategoryStored(id) => {
                    self.category_ids.push(id);
                    self.continue_categories()
                },
                _ => {
                    self.phase = ImportPhase::RollingBack(ImportError::PersistenceError);
                    ImportAction::Rollback
                },
            },
            ImportPhase::Transactions => match event {
                ImportEvent::TransactionStored => {
                    let count = self.payload.transactions.len();
                    assert(self.next_transaction < count);
                    let j = self.next_transaction + 1;
                    self.continue_transactions(j)
                },
                _ => {
                    self.phase = ImportPhase::RollingBack(ImportError::PersistenceError);
                    ImportAction::Rollback
                },
            },
            ImportPhase::Committing => match event {
                ImportEvent::Committed => {
                    self.phase = ImportPhase::Done(Ok(()));
                    ImportAction::Finish(Ok(()))
                },
                _ => {
                    self.phase = ImportPhase::Done(Err(ImportError::PersistenceError));
                    ImportAction::Finish(Err(ImportError::PersistenceError))
                },
            },
            ImportPhase::RollingBack(err) => {
                self.phase = ImportPhase::Done(Err(err));
                ImportAction::Finish(Err(err))
            },
            ImportPhase::Done(r) => ImportAction::Finish(r),
        }
    }
}

/// Whether some category of the batch bears `name`.
pub open spec fn batch_names(p: ImportPayload, name: Seq<char>) -> bool {
    exists|i: int| 0 <= i < p.categories@.len() && #[trigger] p.categories@[i].name@ == name
}

/// A name that no batch category bears maps to no id, whatever ids came back.
proof fn lemma_lookup_absent(cats: Seq<ImportCategory>, ids: Seq<i32>, name: Seq<char>, n: nat)
    requires
        n <= cats.len(),
        forall|i: int| 0 <= i < cats.len() ==> #[trigger] cats[i].name@ != name,
    ensures
        lookup_category(cats, ids, name, n) is None,
    decreases n,
{
    if n > 0 {
        assert(cats[n - 1].name@ != name);
        lemma_lookup_absent(cats, ids, name, (n - 1) as nat);
    }
}

/// What holds along every run of a batch whose transaction `j0` can never be
/// stored: no commit has been asked for, and every transaction up to the one
/// in progress was resolved.
spec fn short_of_commit(p: ImportPayload, s: ImportState, j0: int) -> bool {
    &&& s.category_ids.len() <= p.categories@.len()
    &&& (s.phase is Categories ==> s.category_ids.len() < p.categories@.len())
    &&& !(s.phase is Committing)
    &&& s.phase != ImportPhase::Done(Ok(()))
    &&& (s.phase is Transactions ==> {
        &&& s.category_ids.len() == p.categories@.len()
        &&& forall|i: int|
            0 <= i <= s.next_transaction ==> (#[trigger] transaction_outcome(
                p,
                s.category_ids,
                i,
            )) is Ok
    })
}

proof fn lemma_continue_short_of_commit(p: ImportPayload, ids: Seq<i32>, j: nat, j0: int)
    requires
        ids.len() == p.categories@.len(),
        0 <= j0 < p.transactions@.len(),
        transaction_outcome(p, ids, j0) is Err,
        forall|i: int| 0 <= i < j ==> (#[trigger] transaction_outcome(p, ids, i)) is Ok,
    ensures
        short_of_commit(p, continue_transactions(p, ids, j).0, j0),
        continue_transactions(p, ids, j).1 != StepView::Commit,
        continue_transactions(p, ids, j).1 != StepView::Finish(Ok(())),
{
    if j >= p.transactions@.len() {
        assert(transaction_outcome(p, ids, j0) is Ok);
    } else {
        let s = continue_transactions(p, ids, j).0;
        if s.phase is Transactions {
            assert forall|i: int| 0 <= i <= s.next_transaction implies (#[trigger] transaction_outcome(
                p,
                s.category_ids,
                i,
            )) is Ok by {
                if i < j {
                    assert(transaction_outcome(p, ids, i) is Ok);
                }
            }
        }
    }
}

proof fn lemma_run_short_of_commit(
    p: ImportPayload,
    s: ImportState,
    events: Seq<ImportEvent>,
    j0: int,
)
    requires
        0 <= j0 < p.transactions@.len(),
        !batch_names(p, p.transactions@[j0].category.name@),
        short_of_commit(p, s, j0),
    ensures
        !run_steps(p, s, events).contains(StepView::Commit),
        !run_steps(p, s, events).contains(StepView::Finish(Ok(()))),
    decreases events.len(),
{
    if events.len() > 0 {
        let (s2, v) = next_step(p, s, events[0]);
        let name = p.transactions@[j0].category.name@;
        assert forall|ids: Seq<i32>| ids.len() <= p.categories@.len() implies #[trigger] transaction_outcome(
            p,
            ids,
            j0,
        ) is Err by {
            assert forall|i: int| 0 <= i < p.categories@.len() implies #[trigger] p.categories@[i].name@
                != name by {
                if p.categories@[i].name@ == name {
                    assert(batch_names(p, name));
                }
            }
            lemma_lookup_absent(p.categories@, ids, name, ids.len());
        }
        match s.phase {
            ImportPhase::Opening => {
                if events[0] is Opened {
                    let ids = Seq::<i32>::empty();
                    if p.categories@.len() == 0 {
                        assert(transaction_outcome(p, ids, j0) is Err);
                        lemma_continue_short_of_commit(p, ids, 0, j0);
                    }
                }
            },
            ImportPhase::Categories => {
                if let ImportEvent::CategoryStored(id) = events[0] {
                    let ids = s.category_ids.push(id);
                    if ids.len() == p.categories@.len() {
                        assert(transaction_outcome(p, ids, j0) is Err);
                        lemma_continue_short_of_commit(p, ids, 0, j0);
                    }
                }
            },
            ImportPhase::Transactions => {
                if events[0] is TransactionStored {
                    let ids = s.category_ids;
                    assert(transaction_outcome(p, ids, j0) is Err);
                    assert forall|i: int| 0 <= i < s.next_transaction + 1 implies (
                    #[trigger] transaction_outcome(p, ids, i)) is Ok by {}
                    lemma_continue_short_of_commit(p, ids, s.next_transaction + 1, j0);
                }
            },
            _ => {},
        }
        lemma_run_short_of_commit(p, s2, events.drop_first(), j0);
        let rest = run_steps(p, s2, events.drop_first());
        assert(run_steps(p, s, events) == seq![v] + rest);
        assert forall|k: int| 0 <= k < run_steps(p, s, events).len() implies run_steps(p, s, events)[k]
            != StepView::Commit && run_steps(p, s, events)[k] != StepView::Finish(Ok(())) by {
            if k > 0 {
                assert(run_steps(p, s, events)[k] == rest[k - 1]);
            }
        }
    }
}

/// An import whose batch holds a transaction naming a category that the batch
/// does not hold never commits: whatever the store reports, the session never
/// asks for a commit and never finishes with success, so the rollback leaves the
/// store with exactly the rows that it held before.
pub proof fn lemma_unresolved_import_never_commits(
    p: ImportPayload,
    events: Seq<ImportEvent>,
    j: int,
)
    requires
        0 <= j < p.transactions@.len(),
        !batch_names(p, p.transactions@[j].category.name@),
    ensures
        !run_steps(p, initial_state(), events).contains(StepView::Commit),
        !run_steps(p, initial_state(), events).contains(StepView::Finish(Ok(()))),
{
    lemma_run_short_of_commit(p, initial_state(), events, j);
}

/// A name that some batch category bears maps to an id once every category
/// has its id.
proof fn lemma_lookup_present(cats: Seq<ImportCategory>, ids: Seq<i32>, name: Seq<char>, n: nat, i: int)
    requires
        0 <= i < n,
        n <= cats.len(),
        cats[i].name@ == name,
    ensures
        lookup_category(cats, ids, name, n) is Some,
    decreases n,
{
    if cats[n - 1].name@ != name {
        lemma_lookup_present(cats, ids, name, (n - 1) as nat, i);
    }
}

/// The events of a store that performs every action of an import
/// successfully and answers the category upserts with `ids`, in order.
pub open spec fn acknowledging_events(p: ImportPayload, ids: Seq<i32>) -> Seq<ImportEvent> {
    let n = p.categories@.len() as int;
    let m = p.transactions@.len() as int;
    Seq::new(
        (n + m + 3) as nat,
        |k: int|
            if k == 0 {
                ImportEvent::Start
            } else if k == 1 {
                ImportEvent::Opened
            } else if k <= n + 1 {
                ImportEvent::CategoryStored(ids[k - 2])
            } else if k <= n + m + 1 {
                ImportEvent::TransactionStored
            } else {
                ImportEvent::Committed
            },
    )
}

/// The id that transaction `j` is filed under once every category has its id.
pub open spec fn filed_under(p: ImportPayload, ids: Seq<i32>, j: int) -> i32 {
    lookup_category(p.categories@, ids, p.transactions@[j].category.name@, ids.len())->Some_0
}

/// The actions of a complete import: open, upsert every category in order,
/// insert every transaction in order under its category's id, commit, and
/// report success.
pub open spec fn complete_import_steps(p: ImportPayload, ids: Seq<i32>) -> Seq<StepView> {
    let n = p.categories@.len() as int;
    let m = p.transactions@.len() as int;
    Seq::new(
        (n + m + 3) as nat,
        |k: int|
            if k == 0 {
                StepView::Begin
            } else if k <= n {
                StepView::Upsert((k - 1) as nat)
            } else if k <= n + m {
                StepView::Insert((k - 1 - n) as nat, filed_under(p, ids, k - 1 - n))
            } else if k == n + m + 1 {
                StepView::Commit
            } else {
                StepView::Finish(Ok(()))
            },
    )
}

/// The state of a complete import just before it receives event `k`.
spec fn complete_import_state(p: ImportPayload, ids: Seq<i32>, k: int) -> ImportState {
    let n = p.categories@.len() as int;
    let m = p.transactions@.len() as int;
    if k <= 1 {
        ImportState { phase: ImportPhase::Opening, category_ids: Seq::empty(), next_transaction: 0 }
    } else if k - 2 < n {
        ImportState {
            phase: ImportPhase::Categories,
            category_ids: ids.take(k - 2),
            next_transaction: 0,
        }
    } else if k - 2 < n + m {
        ImportState {
            phase: ImportPhase::Transactions,
            category_ids: ids,
            next_transaction: (k - 2 - n) as nat,
        }
    } else if k - 2 == n + m {
        ImportState { phase: ImportPhase::Committing, category_ids: ids, next_transaction: m as nat }
    } else {
        ImportState {
            phase: ImportPhase::Done(Ok(())),
            category_ids: ids,
            next_transaction: m as nat,
        }
    }
}

proof fn lemma_complete_import_step(p: ImportPayload, ids: Seq<i32>, k: int)
    requires
        ids.len() == p.categories@.len(),
        forall|j: int| 0 <= j < p.transactions@.len() ==> (#[trigger] transaction_outcome(p, ids, j)) is Ok,
        1 <= k < p.categories@.len() + p.transactions@.len() + 3,
    ensures
        next_step(p, complete_import_state(p, ids, k), acknowledging_events(p, ids)[k]) == (
            complete_import_state(p, ids, k + 1),
            complete_import_steps(p, ids)[k],
        ),
{
    let n = p.categories@.len() as int;
    let m = p.transactions@.len() as int;
    if k <= n + 1 {
        let before = complete_import_state(p, ids, k).category_ids;
        let now = if k == 1 {
            Seq::<i32>::empty()
        } else {
            before.push(ids[k - 2])
        };
        assert(now =~= ids.take(k - 1));
        if k - 1 == n {
            assert(ids.take(k - 1) =~= ids);
        }
    }
    if n <= k - 1 && k - 1 < n + m {
        assert(transaction_outcome(p, ids, k - 1 - n) is Ok);
    }
}

proof fn lemma_complete_import_run(p: ImportPayload, ids: Seq<i32>, k: int)
    requires
        ids.len() == p.categories@.len(),
        forall|j: int| 0 <= j < p.transactions@.len() ==> (#[trigger] transaction_outcome(p, ids, j)) is Ok,
        1 <= k <= p.categories@.len() + p.transactions@.len() + 3,
    ensures
        run_steps(
            p,
            complete_import_state(p, ids, k),
            acknowledging_events(p, ids).subrange(k, acknowledging_events(p, ids).len() as int),
        ) == complete_import_steps(p, ids).subrange(k, complete_import_steps(p, ids).len() as int),
    decreases p.categories@.len() + p.transactions@.len() + 3 - k,
{
    let events = acknowledging_events(p, ids);
    let steps = complete_import_steps(p, ids);
    let len = events.len() as int;
    let rest = events.subrange(k, len);
    if k < len {
        lemma_complete_import_step(p, ids, k);
        lemma_complete_import_run(p, ids, k + 1);
        assert(rest[0] == events[k]);
        assert(rest.drop_first() =~= events.subrange(k + 1, len));
        assert(steps.subrange(k, len) =~= seq![steps[k]] + steps.subrange(k + 1, len));
    } else {
        assert(rest =~= Seq::<ImportEvent>::empty());
        assert(steps.subrange(k, len) =~= Seq::<StepView>::empty());
    }
}

/// An import of a batch whose every transaction names a category of the batch
/// and carries a decimal amount, against a store that performs every action
/// and answers the category upserts with `ids`, stores the batch whole: the
/// session upserts each category in order, inserts each transaction in order
/// under the id returned for the last batch category of its name, commits, and
/// finishes with success.
pub proof fn lemma_consistent_import_commits(p: ImportPayload, ids: Seq<i32>)
    requires
        ids.len() == p.categories@.len(),
        forall|j: int|
            0 <= j < p.transactions@.len() ==> batch_names(
                p,
                (#[trigger] p.transactions@[j]).category.name@,
            ) && decimal_parses(p.transactions@[j].amount@),
    ensures
        run_steps(p, initial_state(), acknowledging_events(p, ids)) == complete_import_steps(p, ids),
{
    assert forall|j: int| 0 <= j < p.transactions@.len() implies (#[trigger] transaction_outcome(
        p,
        ids,
        j,
    )) is Ok by {
        let name = p.transactions@[j].category.name@;
        assert(batch_names(p, name));
        let i = choose|i: int| 0 <= i < p.categories@.len() && #[trigger] p.categories@[i].name@ == name;
        lemma_lookup_present(p.categories@, ids, name, ids.len(), i);
    }
    let events = acknowledging_events(p, ids);
    let steps = complete_import_steps(p, ids);
    lemma_complete_import_run(p, ids, 1);
    assert(events.drop_first() =~= events.subrange(1, events.len() as int));
    assert(next_step(p, initial_state(), events[0]) == (complete_import_state(p, ids, 1), steps[0]));
    assert(steps =~= seq![steps[0]] + steps.subrange(1, steps.len() as int));
}

} // verus!
