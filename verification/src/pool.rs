//! The lending pool: initialization, deposit intake, and borrow
//! disbursement against the liquidity the pool holds on the external asset
//! ledger. The pool records no balance of its own — its liquidity is always
//! the asset ledger's balance for the pool's own identity, queried on
//! demand, so the two can never drift apart.

use vstd::prelude::*;
use crate::auth::AuthorizationGate;
use crate::auth::Principal;
use crate::token::TokenError;
use crate::token::TokenLedger;

verus! {

/// The pool's tagged key space in the instance store: the admin recorded at
/// initialization, and the address of the asset contract being lent.
#[derive(Clone, Copy, PartialEq, Eq, Structural, Debug)]
pub enum DataKey {
    Admin,
    TokenAddress,
}

/// How a pool call fails. Every failure aborts the whole call: no transfer
/// or write performed by a failing call survives.
#[derive(Clone, Copy, PartialEq, Eq, Structural, Debug)]
pub enum PoolError {
    /// The principal that must approve the call has not done so.
    NotAuthorized,
    /// `init` was called on an already initialized pool.
    AlreadyInitialized,
    /// A call that needs the configured asset ran before `init`.
    NotInitialized,
    /// `borrow` asked for more than the pool currently holds.
    InsufficientLiquidity,
    /// The asset ledger refused the requested movement.
    Transfer(TokenError),
}

impl PoolError {
    /// The fixed diagnostic message for this failure.
    pub fn message(&self) -> (m: &'static str)
        ensures
            *self is NotAuthorized ==> m@ == "Not authorized"@,
            *self is AlreadyInitialized ==> m@ == "Already initialized"@,
            *self is NotInitialized ==> m@ == "Not initialized"@,
            *self is InsufficientLiquidity ==> m@ == "Insufficient pool liquidity"@,
            *self is Transfer ==> m@ == "Transfer refused by the asset ledger"@,
    {
        match self {
            PoolError::NotAuthorized => "Not authorized",
            PoolError::AlreadyInitialized => "Already initialized",
            PoolError::NotInitialized => "Not initialized",
            PoolError::InsufficientLiquidity => "Insufficient pool liquidity",
            PoolError::Transfer(_) => "Transfer refused by the asset ledger",
        }
    }
}

/// A notification the pool emits, keyed by the acting principal.
#[derive(Clone, Copy, PartialEq, Eq, Structural, Debug)]
pub enum PoolEvent {
    Deposit { from: Principal, amount: i128 },
    Borrow { borrower: Principal, amount: i128 },
}

/// The pool's mathematical state: its own identity on the asset ledger, the
/// two once-written configuration records, and the notifications emitted so
/// far.
#[verifier::ext_equal]
pub struct PoolState {
    pub pool_address: Principal,
    pub admin: Option<Principal>,
    pub token_address: Option<Principal>,
    pub events: Seq<PoolEvent>,
}

impl PoolState {
    /// The state of a freshly deployed pool with identity `pool_address`.
    pub open spec fn init_state(pool_address: Principal) -> PoolState {
        PoolState { pool_address, admin: None, token_address: None, events: Seq::empty() }
    }

    /// Whether `init` has run: the admin record is the initialization
    /// marker.
    pub open spec fn initialized(self) -> bool {
        self.admin is Some
    }

    /// The two configuration records are written together, once.
    pub open spec fn wf(self) -> bool {
        self.admin is Some <==> self.token_address is Some
    }

    /// The state after a successful `init`: both records written, nothing
    /// else touched.
    pub open spec fn apply_init(self, admin: Principal, token_address: Principal) -> PoolState {
        PoolState { admin: Some(admin), token_address: Some(token_address), ..self }
    }

    /// The state after one more notification.
    pub open spec fn with_event(self, e: PoolEvent) -> PoolState {
        PoolState { events: self.events.push(e), ..self }
    }

    /// The instance store as the substrate persists it: one tagged key per
    /// configuration record, absent until `init` writes both.
    pub open spec fn stored(self, key: DataKey) -> Option<Principal> {
        match key {
            DataKey::Admin => self.admin,
            DataKey::TokenAddress => self.token_address,
        }
    }
}

/// Initialization happens exactly once per instance: a successful `init`
/// leaves the pool initialized with exactly the given records, so by
/// `init`'s contract every later `init` is refused and leaves the admin and
/// asset records unchanged.
pub proof fn lemma_init_once(s: PoolState, admin: Principal, token_address: Principal)
    requires
        s.wf(),
        !s.initialized(),
    ensures
        s.apply_init(admin, token_address).wf(),
        s.apply_init(admin, token_address).initialized(),
        s.apply_init(admin, token_address).stored(DataKey::Admin) == (Some(admin)),
        s.apply_init(admin, token_address).stored(DataKey::TokenAddress) == (Some(token_address)),
        s.apply_init(admin, token_address).pool_address == s.pool_address,
        s.apply_init(admin, token_address).events == s.events,
{
}

/// The lending pool contract: one instance's durable state.
pub struct LendingPool {
    pool_address: Principal,
    admin: Option<Principal>,
    token_address: Option<Principal>,
    events: Vec<PoolEvent>,
}

impl View for LendingPool {
    type V = PoolState;

    closed spec fn view(&self) -> PoolState {
        PoolState {
            pool_address: self.pool_address,
            admin: self.admin,
            token_address: self.token_address,
            events: self.events@,
        }
    }
}

impl LendingPool {
    /// The two configuration records are written together, once.
    pub closed spec fn wf(self) -> bool {
        self@.wf()
    }

    /// A freshly deployed, uninitialized pool whose identity on the asset
    /// ledger is `pool_address`.
    pub fn new(pool_address: Principal) -> (p: LendingPool)
        ensures
            p.wf(),
            p@ == PoolState::init_state(pool_address),
    {
        let p = LendingPool { pool_address, admin: None, token_address: None, events: Vec::new() };
        proof {
            assert(p@ =~= PoolState::init_state(pool_address));
        }
        p
    }

    /// Rebuilds one instance's pool from its durable records. Refuses a
    /// store holding only one of the two configuration records, which no
    /// run of calls can produce.
    pub fn from_parts(
        pool_address: Principal,
        admin: Option<Principal>,
        token_address: Option<Principal>,
        events: Vec<PoolEvent>,
    ) -> (r: Option<LendingPool>)
        ensures
            r is Some <==> (admin is Some <==> token_address is Some),
            r matches Some(p) ==> p.wf() && p@ == (PoolState {
                pool_address,
                admin,
                token_address,
                events: events@,
            }),
    {
        if admin.is_some() != token_address.is_some() {
            return None;
        }
        let p = LendingPool { pool_address, admin, token_address, events };
        proof {
            assert(p@ =~= (PoolState {
                pool_address,
                admin,
                token_address,
                events: p.events@,
            }));
        }
        Some(p)
    }

    /// The pool's own identity on the asset ledger.
    pub fn pool_address(&self) -> (p: Principal)
        ensures
            p == self@.pool_address,
    {
        self.pool_address
    }

    /// The admin recorded at initialization, if `init` has run.
    pub fn admin(&self) -> (a: Option<Principal>)
        ensures
            a == self@.admin,
    {
        self.admin
    }

    /// The asset recorded at initialization, if `init` has run.
    pub fn token_address(&self) -> (t: Option<Principal>)
        ensures
            t == self@.token_address,
    {
        self.token_address
    }

    /// The notifications emitted so far, in emission order.
    pub fn notifications(&self) -> (v: &Vec<PoolEvent>)
        ensures
            v@ == self@.events,
    {
        &self.events
    }

    /// Records the admin and the asset to lend. The first caller wins: no
    /// authorization gates this call. A second `init` fails with
    /// [`PoolError::AlreadyInitialized`] and changes nothing.
    pub fn init(&mut self, admin: Principal, token_address: Principal) -> (r: Result<(), PoolError>)
        requires
            old(self).wf(),
        ensures
            final(self).wf(),
            r is Ok <==> !old(self)@.initialized(),
            old(self)@.initialized() ==> r == Err::<(), PoolError>(PoolError::AlreadyInitialized)
                && *final(self) == *old(self),
            r is Ok ==> final(self)@ == old(self)@.apply_init(admin, token_address),
    {
        if self.admin.is_some() {
            return Err(PoolError::AlreadyInitialized);
        }
        self.admin = Some(admin);
        self.token_address = Some(token_address);
        proof {
            assert(self@ =~= old(self)@.apply_init(admin, token_address));
        }
        Ok(())
    }

    /// Moves `amount` of the configured asset from `from` into the pool.
    ///
    /// `from` must have approved the call; the pool must be initialized;
    /// then the asset ledger moves the amount from `from` to the pool's own
    /// identity — `ledger` is that asset contract's ledger. No per-depositor
    /// share is recorded. On success a deposit notification is emitted; any
    /// failure changes neither the pool nor the ledger.
    pub fn deposit(
        &mut self,
        ledger: &mut TokenLedger,
        auth: &AuthorizationGate,
        from: Principal,
        amount: i128,
    ) -> (r: Result<(), PoolError>)
        requires
            old(self).wf(),
            old(ledger).wf(),
        ensures
            final(self).wf(),
            final(ledger).wf(),
            r is Err ==> *final(self) == *old(self) && *final(ledger) == *old(ledger),
            !auth.spec_approves(from) ==> r == Err::<(), PoolError>(PoolError::NotAuthorized),
            auth.spec_approves(from) && !old(self)@.initialized() ==> r == Err::<(), PoolError>(
                PoolError::NotInitialized,
            ),
            auth.spec_approves(from) && old(self)@.initialized() && !old(ledger).spec_can_transfer(
                from,
                old(self)@.pool_address,
                amount as int,
            ) ==> r == Err::<(), PoolError>(
                PoolError::Transfer(
                    old(ledger).spec_transfer_error(from, old(self)@.pool_address, amount as int),
                ),
            ),
            r is Ok <==> auth.spec_approves(from) && old(self)@.initialized() && old(
                ledger,
            ).spec_can_transfer(from, old(self)@.pool_address, amount as int),
            r is Ok ==> final(self)@ == old(self)@.with_event(
                PoolEvent::Deposit { from, amount },
            ) && forall|q: Principal|
                final(ledger).spec_balance(q) == old(ledger).spec_balance_after(
                    from,
                    old(self)@.pool_address,
                    q,
                    amount as int,
                ),
    {
        if !auth.approves(from) {
            return Err(PoolError::NotAuthorized);
        }
        if self.token_address.is_none() {
            return Err(PoolError::NotInitialized);
        }
        match ledger.transfer(from, self.pool_address, amount) {
            Ok(()) => {
                self.events.push(PoolEvent::Deposit { from, amount });
                proof {
                    assert(self@ =~= old(self)@.with_event(PoolEvent::Deposit { from, amount }));
                }
                Ok(())
            }
            Err(e) => Err(PoolError::Transfer(e)),
        }
    }

    /// Lends `amount` of the configured asset to `borrower`.
    ///
    /// `borrower` must have approved the call; the pool must be
    /// initialized; the pool's current balance on the asset ledger must
    /// cover `amount`, else the call fails with
    /// [`PoolError::InsufficientLiquidity`]; then the ledger moves the
    /// amount from the pool's identity to `borrower`. No debt record is
    /// created. On success a borrow notification is emitted; any failure
    /// changes neither the pool nor the ledger.
    pub fn borrow(
        &mut self,
        ledger: &mut TokenLedger,
        auth: &AuthorizationGate,
        borrower: Principal,
        amount: i128,
    ) -> (r: Result<(), PoolError>)
        requires
            old(self).wf(),
            old(ledger).wf(),
        ensures
            final(self).wf(),
            final(ledger).wf(),
            r is Err ==> *final(self) == *old(self) && *final(ledger) == *old(ledger),
            !auth.spec_approves(borrower) ==> r == Err::<(), PoolError>(PoolError::NotAuthorized),
            auth.spec_approves(borrower) && !old(self)@.initialized() ==> r == Err::<(), PoolError>(
                PoolError::NotInitialized,
            ),
            auth.spec_approves(borrower) && old(self)@.initialized() && amount as int > old(
                ledger,
            ).spec_balance(old(self)@.pool_address) ==> r == Err::<(), PoolError>(
                PoolError::InsufficientLiquidity,
            ),
            auth.spec_approves(borrower) && old(self)@.initialized() && amount as int <= old(
                ledger,
            ).spec_balance(old(self)@.pool_address) && !old(ledger).spec_can_transfer(
                old(self)@.pool_address,
                borrower,
                amount as int,
            ) ==> r == Err::<(), PoolError>(
                PoolError::Transfer(
                    old(ledger).spec_transfer_error(
                        old(self)@.pool_address,
                        borrower,
                        amount as int,
                    ),
                ),
            ),
            r is Ok <==> auth.spec_approves(borrower) && old(self)@.initialized() && amount as int
                <= old(ledger).spec_balance(old(self)@.pool_address) && old(
                ledger,
            ).spec_can_transfer(old(self)@.pool_address, borrower, amount as int),
            r is Ok ==> final(self)@ == old(self)@.with_event(
                PoolEvent::Borrow { borrower, amount },
            ) && forall|q: Principal|
                final(ledger).spec_balance(q) == old(ledger).spec_balance_after(
                    old(self)@.pool_address,
                    borrower,
                    q,
                    amount as int,
                ),
    {
        if !auth.approves(borrower) {
            return Err(PoolError::NotAuthorized);
        }
        if self.token_address.is_none() {
            return Err(PoolError::NotInitialized);
        }
        let pool_balance = ledger.balance(self.pool_address);
        if amount > pool_balance {
            return Err(PoolError::InsufficientLiquidity);
        }
        match ledger.transfer(self.pool_address, borrower, amount) {
            Ok(()) => {
                self.events.push(PoolEvent::Borrow { borrower, amount });
                proof {
                    assert(self@ =~= old(self)@.with_event(PoolEvent::Borrow { borrower, amount }));
                }
                Ok(())
            }
            Err(e) => Err(PoolError::Transfer(e)),
        }
    }

    /// Reports the pool's current liquidity: the asset ledger's balance for
    /// the pool's own identity, always queried and never tracked, so the
    /// answer cannot drift from the ledger's view. Fails with
    /// [`PoolError::NotInitialized`] before `init`.
    pub fn get_pool_balance(&self, ledger: &TokenLedger) -> (r: Result<i128, PoolError>)
        requires
            self.wf(),
            ledger.wf(),
        ensures
            r is Ok <==> self@.initialized(),
            !self@.initialized() ==> r == Err::<i128, PoolError>(PoolError::NotInitialized),
            r is Ok ==> r->Ok_0 as int == ledger.spec_balance(self@.pool_address),
    {
        if self.token_address.is_none() {
            return Err(PoolError::NotInitialized);
        }
        Ok(ledger.balance(self.pool_address))
    }
}

} // verus!
