//! The invoice registry: allocates strictly increasing invoice ids and
//! tracks each invoice's lifecycle from `Unpaid` to `Repaid`.

use vstd::prelude::*;
use crate::auth::AuthorizationGate;
use crate::auth::Principal;

verus! {

/// One invoice record: a claim owed by `owner`. `id` and `owner` never
/// change after minting; `is_repaid` moves one way, from `false` to `true`.
/// `amount` and `due_date` are recorded as given: the registry validates
/// neither sign nor plausibility.
#[derive(Clone, Copy, PartialEq, Eq, Structural, Debug)]
pub struct Invoice {
    pub id: u64,
    pub owner: Principal,
    pub amount: i128,
    pub due_date: u64,
    pub is_repaid: bool,
}

/// The registry's tagged key space in the instance store: one record per
/// allocated id, and the singleton counter holding the highest id.
#[derive(Clone, Copy, PartialEq, Eq, Structural, Debug)]
pub enum DataKey {
    Invoice(u64),
    TokenId,
}

/// A value stored under a registry [`DataKey`].
#[derive(Clone, Copy, PartialEq, Eq, Structural, Debug)]
pub enum StoreValue {
    Invoice(Invoice),
    Id(u64),
}

/// How a registry call fails. Every failure aborts the whole call: no write
/// performed by a failing call survives.
#[derive(Clone, Copy, PartialEq, Eq, Structural, Debug)]
pub enum InvoiceError {
    /// The principal that must approve the call has not done so.
    NotAuthorized,
    /// `repay` named an id that was never minted.
    NotFound,
}

impl InvoiceError {
    /// The fixed diagnostic message for this failure.
    pub fn message(&self) -> (m: &'static str)
        ensures
            *self is NotAuthorized ==> m@ == "Not authorized"@,
            *self is NotFound ==> m@ == "Invoice not found"@,
    {
        match self {
            InvoiceError::NotAuthorized => "Not authorized",
            InvoiceError::NotFound => "Invoice not found",
        }
    }
}

/// A notification the registry emits, keyed by the acting owner.
#[derive(Clone, Copy, PartialEq, Eq, Structural, Debug)]
pub enum InvoiceEvent {
    Mint { owner: Principal, id: u64 },
    Repay { owner: Principal, id: u64 },
}

/// The registry's mathematical state: the records in mint order, and the
/// notifications in emission order. The record minted k-th holds id k+1, so
/// the stored id counter is exactly the number of records.
#[verifier::ext_equal]
pub struct RegistryState {
    pub invoices: Seq<Invoice>,
    pub events: Seq<InvoiceEvent>,
}

impl RegistryState {
    /// The state of a freshly deployed registry: nothing minted, nothing
    /// emitted.
    pub open spec fn init() -> RegistryState {
        RegistryState { invoices: Seq::empty(), events: Seq::empty() }
    }

    /// How many invoices have been minted; also the highest allocated id.
    pub open spec fn count(self) -> int {
        self.invoices.len() as int
    }

    /// The id the next successful mint will assign.
    pub open spec fn next_id(self) -> int {
        self.count() + 1
    }

    /// The record stored under `id`, if that id was ever minted.
    pub open spec fn invoice(self, id: u64) -> Option<Invoice> {
        if 1 <= id && id <= self.invoices.len() {
            Some(self.invoices[id - 1])
        } else {
            None
        }
    }

    /// Ids are consecutive: the record at position k holds id k+1.
    pub open spec fn wf(self) -> bool {
        forall|k: int| 0 <= k < self.invoices.len() ==> self.invoices[k].id == k + 1
    }

    /// The state after a successful, authorized mint: one new unpaid record
    /// under the next id, and a mint notification.
    pub open spec fn mint(self, owner: Principal, amount: i128, due_date: u64) -> RegistryState {
        let id = (self.invoices.len() + 1) as u64;
        RegistryState {
            invoices: self.invoices.push(
                Invoice { id, owner, amount, due_date, is_repaid: false },
            ),
            events: self.events.push(InvoiceEvent::Mint { owner, id }),
        }
    }

    /// The state after a successful, authorized repay of `id`: the record's
    /// flag is set (again, if it already was), and a repay notification is
    /// emitted either way.
    pub open spec fn repay(self, id: u64) -> RegistryState
        recommends
            self.invoice(id) is Some,
    {
        let inv = self.invoices[id - 1];
        RegistryState {
            invoices: self.invoices.update(id - 1, Invoice { is_repaid: true, ..inv }),
            events: self.events.push(InvoiceEvent::Repay { owner: inv.owner, id }),
        }
    }

    /// The instance store as the substrate persists it: one tagged key per
    /// datum, so differently-tagged keys cannot collide. The counter key is
    /// absent until the first mint, matching its default of 0.
    pub open spec fn stored(self, key: DataKey) -> Option<StoreValue> {
        match key {
            DataKey::Invoice(id) => match self.invoice(id) {
                Some(inv) => Some(StoreValue::Invoice(inv)),
                None => None,
            },
            DataKey::TokenId => if self.count() > 0 {
                Some(StoreValue::Id(self.count() as u64))
            } else {
                None
            },
        }
    }
}

/// The arguments of one mint call, for reasoning about runs of mints.
#[derive(Clone, Copy, PartialEq, Eq, Structural, Debug)]
pub struct MintRequest {
    pub owner: Principal,
    pub amount: i128,
    pub due_date: u64,
}

/// The registry after a run of successful mints, applied in call order.
pub open spec fn mint_fold(s: RegistryState, reqs: Seq<MintRequest>) -> RegistryState
    decreases reqs.len(),
{
    if reqs.len() == 0 {
        s
    } else {
        mint_fold(s.mint(reqs[0].owner, reqs[0].amount, reqs[0].due_date), reqs.drop_first())
    }
}

/// In a well-formed registry the assigned ids are exactly `1 ..= count`,
/// regardless of owner, and each id reads back a record carrying that id.
pub proof fn lemma_ids_consecutive(s: RegistryState)
    requires
        s.wf(),
    ensures
        forall|id: u64| #[trigger] s.invoice(id) is Some <==> 1 <= id <= s.count(),
        forall|id: u64| #[trigger] s.invoice(id) is Some ==> s.invoice(id)->0.id == id,
{
}

/// A mint stores exactly the given fields under the next id, unrepaid, and
/// touches no other record: reading the returned id yields the minted
/// fields with `is_repaid == false`. The counter record advances with it.
pub proof fn lemma_mint_reads_back(s: RegistryState, owner: Principal, amount: i128, due_date: u64)
    requires
        s.wf(),
        s.count() < u64::MAX,
    ensures
        s.mint(owner, amount, due_date).wf(),
        s.mint(owner, amount, due_date).count() == s.count() + 1,
        s.mint(owner, amount, due_date).invoice((s.count() + 1) as u64) == (Some(
            Invoice { id: (s.count() + 1) as u64, owner, amount, due_date, is_repaid: false },
        )),
        forall|j: u64| j as int != s.count() + 1 ==> s.mint(owner, amount, due_date).invoice(j)
            == s.invoice(j),
        s.mint(owner, amount, due_date).stored(DataKey::TokenId) == (Some(
            StoreValue::Id((s.count() + 1) as u64),
        )),
{
}

/// A run of mints stays well formed and allocates one id per request,
/// whoever the owners are.
pub proof fn lemma_mint_fold_count(s: RegistryState, reqs: Seq<MintRequest>)
    requires
        s.wf(),
        s.count() + reqs.len() <= u64::MAX,
    ensures
        mint_fold(s, reqs).wf(),
        mint_fold(s, reqs).count() == s.count() + reqs.len(),
    decreases reqs.len(),
{
    if reqs.len() > 0 {
        lemma_mint_reads_back(s, reqs[0].owner, reqs[0].amount, reqs[0].due_date);
        lemma_mint_fold_count(
            s.mint(reqs[0].owner, reqs[0].amount, reqs[0].due_date),
            reqs.drop_first(),
        );
    }
}

/// Mints allocate ids `1, 2, 3, ...` in call order: in any run of
/// authorized mints on a fresh registry, the mint serving request `k`
/// (counted from 0) assigns id `k + 1`, regardless of owner.
pub proof fn lemma_mint_ids_in_order(reqs: Seq<MintRequest>, k: int)
    requires
        0 <= k < reqs.len(),
        reqs.len() <= u64::MAX,
    ensures
        mint_fold(RegistryState::init(), reqs.take(k)).next_id() == k + 1,
{
    lemma_mint_fold_count(RegistryState::init(), reqs.take(k));
}

/// A repay flips only the named record's flag: id, owner, amount and due
/// date survive, every other record is untouched, and the flag never goes
/// back to `false`.
pub proof fn lemma_repay_flips_only_flag(s: RegistryState, id: u64)
    requires
        s.wf(),
        s.invoice(id) is Some,
    ensures
        s.repay(id).wf(),
        s.repay(id).count() == s.count(),
        s.repay(id).invoice(id) == (Some(Invoice { is_repaid: true, ..s.invoice(id)->0 })),
        forall|j: u64| j != id ==> s.repay(id).invoice(j) == s.invoice(j),
{
}

/// Repay is idempotent: after a successful repay the record still exists
/// under the same owner — so the same authorization lets a second repay
/// succeed — the flag reads `true` both times, and the second call leaves
/// every record exactly as the first left it.
pub proof fn lemma_repay_idempotent(s: RegistryState, id: u64)
    requires
        s.wf(),
        s.invoice(id) is Some,
    ensures
        s.repay(id).invoice(id) is Some,
        s.repay(id).invoice(id)->0.owner == s.invoice(id)->0.owner,
        s.repay(id).invoice(id)->0.is_repaid,
        s.repay(id).repay(id).invoice(id)->0.is_repaid,
        forall|j: u64| s.repay(id).repay(id).invoice(j) == s.repay(id).invoice(j),
{
    lemma_repay_flips_only_flag(s, id);
    lemma_repay_flips_only_flag(s.repay(id), id);
    assert(s.repay(id).repay(id).invoices =~= s.repay(id).invoices);
}

/// The invoice registry contract: one instance's durable state.
pub struct InvoiceContract {
    token_id: u64,
    invoices: Vec<Invoice>,
    events: Vec<InvoiceEvent>,
}

impl View for InvoiceContract {
    type V = RegistryState;

    closed spec fn view(&self) -> RegistryState {
        RegistryState { invoices: self.invoices@, events: self.events@ }
    }
}

impl InvoiceContract {
    /// The stored counter mirrors the record count, and ids are consecutive.
    pub closed spec fn wf(self) -> bool {
        &&& self.token_id == self.invoices@.len()
        &&& self@.wf()
    }

    /// A freshly deployed registry.
    pub fn new() -> (c: InvoiceContract)
        ensures
            c.wf(),
            c@ == RegistryState::init(),
    {
        let c = InvoiceContract { token_id: 0, invoices: Vec::new(), events: Vec::new() };
        proof {
            assert(c@ =~= RegistryState::init());
        }
        c
    }

    /// Rebuilds one instance's registry from its durable records: the rows
    /// read back from the store in id order, and the notifications already
    /// emitted (an empty history when only a call's new notifications
    /// matter). Refuses rows whose ids are not exactly `1, 2, 3, ...` in
    /// order, which no run of calls can produce.
    pub fn from_records(invoices: Vec<Invoice>, events: Vec<InvoiceEvent>) -> (r: Option<
        InvoiceContract,
    >)
        ensures
            r is Some <==> (forall|k: int|
                0 <= k < invoices@.len() ==> invoices@[k].id == k + 1),
            r matches Some(c) ==> c.wf() && c@ == (RegistryState {
                invoices: invoices@,
                events: events@,
            }),
    {
        let n: usize = invoices.len();
        let mut i: usize = 0;
        while i < n
            invariant
                i <= n,
                n == invoices@.len(),
                forall|k: int| 0 <= k < i ==> invoices@[k].id == k + 1,
            decreases n - i,
        {
            let id = invoices[i].id;
            if id < 1 || id - 1 != i as u64 {
                return None;
            }
            i = i + 1;
        }
        let c = InvoiceContract { token_id: n as u64, invoices, events };
        proof {
            assert(c@ =~= (RegistryState { invoices: c.invoices@, events: c.events@ }));
        }
        Some(c)
    }

    /// The records in id order, as they stand in the store.
    pub fn records(&self) -> (v: &Vec<Invoice>)
        ensures
            v@ == self@.invoices,
    {
        &self.invoices
    }

    /// The notifications emitted so far, in emission order.
    pub fn notifications(&self) -> (v: &Vec<InvoiceEvent>)
        ensures
            v@ == self@.events,
    {
        &self.events
    }

    /// Mints a new invoice owned by `owner` and returns its id.
    ///
    /// The named owner must have approved the call; nobody else's approval
    /// is consulted. On success the registry allocates the next id — one
    /// more than the highest so far — stores the unpaid record under it,
    /// advances the counter, and emits a mint notification. A refused call
    /// changes nothing.
    pub fn mint(
        &mut self,
        auth: &AuthorizationGate,
        owner: Principal,
        amount: i128,
        due_date: u64,
    ) -> (r: Result<u64, InvoiceError>)
        requires
            old(self).wf(),
            old(self)@.count() < u64::MAX,
        ensures
            final(self).wf(),
            r is Ok <==> auth.spec_approves(owner),
            r is Err ==> r == Err::<u64, InvoiceError>(InvoiceError::NotAuthorized) && *final(self)
                == *old(self),
            r is Ok ==> r->Ok_0 == old(self)@.next_id() && final(self)@ == old(self)@.mint(
                owner,
                amount,
                due_date,
            ),
    {
        if !auth.approves(owner) {
            return Err(InvoiceError::NotAuthorized);
        }
        let current_id = self.token_id + 1;
        let invoice = Invoice { id: current_id, owner, amount, due_date, is_repaid: false };
        self.invoices.push(invoice);
        self.token_id = current_id;
        self.events.push(InvoiceEvent::Mint { owner, id: current_id });
        proof {
            assert(self@ =~= old(self)@.mint(owner, amount, due_date));
        }
        Ok(current_id)
    }

    /// Reads the record stored under `id`, or `None` if that id was never
    /// minted. No authorization is required and nothing changes.
    pub fn get_invoice(&self, id: u64) -> (r: Option<Invoice>)
        requires
            self.wf(),
        ensures
            r == self@.invoice(id),
    {
        if 1 <= id && id <= self.token_id {
            let n: usize = self.invoices.len();
            assert(id - 1 < n);
            Some(self.invoices[(id - 1) as usize])
        } else {
            None
        }
    }

    /// Marks the invoice stored under `id` as repaid.
    ///
    /// Fails with [`InvoiceError::NotFound`] when the id was never minted,
    /// and with [`InvoiceError::NotAuthorized`] when the stored owner has
    /// not approved the call; either failure changes nothing. On success the
    /// flag is set — unconditionally, so an already-repaid invoice repays
    /// again without error — the record is written back, and a repay
    /// notification is emitted.
    pub fn repay(&mut self, auth: &AuthorizationGate, id: u64) -> (r: Result<(), InvoiceError>)
        requires
            old(self).wf(),
        ensures
            final(self).wf(),
            r is Ok <==> (old(self)@.invoice(id) matches Some(inv) && auth.spec_approves(inv.owner)),
            old(self)@.invoice(id) is None ==> r == Err::<(), InvoiceError>(InvoiceError::NotFound),
            (old(self)@.invoice(id) matches Some(inv) && !auth.spec_approves(inv.owner)) ==> r
                == Err::<(), InvoiceError>(InvoiceError::NotAuthorized),
            r is Err ==> *final(self) == *old(self),
            r is Ok ==> final(self)@ == old(self)@.repay(id),
    {
        if id < 1 || id > self.token_id {
            return Err(InvoiceError::NotFound);
        }
        let n: usize = self.invoices.len();
        assert(id - 1 < n);
        let idx = (id - 1) as usize;
        let stored = self.invoices[idx];
        if !auth.approves(stored.owner) {
            return Err(InvoiceError::NotAuthorized);
        }
        self.invoices.set(idx, Invoice { is_repaid: true, ..stored });
        self.events.push(InvoiceEvent::Repay { owner: stored.owner, id });
        proof {
            assert(self@ =~= old(self)@.repay(id));
        }
        Ok(())
    }
}

} // verus!
