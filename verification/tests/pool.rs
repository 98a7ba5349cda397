use invoice_pool::auth::AuthorizationGate;
use invoice_pool::auth::Principal;
use invoice_pool::pool::LendingPool;
use invoice_pool::pool::PoolError;
use invoice_pool::pool::PoolEvent;
use invoice_pool::token::TokenError;
use invoice_pool::token::TokenLedger;

const POOL: Principal = Principal(99);
const ADMIN: Principal = Principal(10);
const USDC: Principal = Principal(1000);

#[test]
fn init_succeeds_exactly_once() {
    let mut pool = LendingPool::new(POOL);
    assert_eq!(pool.init(ADMIN, USDC), Ok(()));
    assert_eq!(pool.init(Principal(11), Principal(1001)), Err(PoolError::AlreadyInitialized));
    // the first writes survive: the pool still reports a balance for USDC
    let ledger = TokenLedger::new();
    assert_eq!(pool.get_pool_balance(&ledger), Ok(0));
}

#[test]
fn deposit_before_init_fails_without_transfer() {
    let b = Principal(2);
    let gate = AuthorizationGate::approving(vec![b]);
    let mut ledger = TokenLedger::new();
    ledger.set_balance(b, 500);
    let mut pool = LendingPool::new(POOL);
    assert_eq!(pool.deposit(&mut ledger, &gate, b, 500), Err(PoolError::NotInitialized));
    assert_eq!(ledger.balance(b), 500);
    assert_eq!(ledger.balance(POOL), 0);
}

#[test]
fn borrow_before_init_fails_without_transfer() {
    let c = Principal(3);
    let gate = AuthorizationGate::approving(vec![c]);
    let mut ledger = TokenLedger::new();
    let mut pool = LendingPool::new(POOL);
    assert_eq!(pool.borrow(&mut ledger, &gate, c, 1), Err(PoolError::NotInitialized));
    assert_eq!(ledger.balance(c), 0);
}

#[test]
fn get_pool_balance_before_init_fails() {
    let ledger = TokenLedger::new();
    let pool = LendingPool::new(POOL);
    assert_eq!(pool.get_pool_balance(&ledger), Err(PoolError::NotInitialized));
}

#[test]
fn deposit_and_borrow_scenario() {
    let b = Principal(2);
    let c = Principal(3);
    let gate = AuthorizationGate::approving(vec![b, c]);
    let mut ledger = TokenLedger::new();
    ledger.set_balance(b, 500);
    let mut pool = LendingPool::new(POOL);
    assert_eq!(pool.init(ADMIN, USDC), Ok(()));
    assert_eq!(pool.deposit(&mut ledger, &gate, b, 500), Ok(()));
    assert_eq!(pool.get_pool_balance(&ledger), Ok(500));
    assert_eq!(ledger.balance(b), 0);
    // over the pool's liquidity: refused, nothing moves
    assert_eq!(pool.borrow(&mut ledger, &gate, c, 600), Err(PoolError::InsufficientLiquidity));
    assert_eq!(pool.get_pool_balance(&ledger), Ok(500));
    assert_eq!(ledger.balance(c), 0);
    // within the pool's liquidity: pool down by 300, borrower up by 300
    assert_eq!(pool.borrow(&mut ledger, &gate, c, 300), Ok(()));
    assert_eq!(pool.get_pool_balance(&ledger), Ok(200));
    assert_eq!(ledger.balance(c), 300);
}

#[test]
fn pool_balance_always_mirrors_the_ledger() {
    let b = Principal(2);
    let gate = AuthorizationGate::approving(vec![b]);
    let mut ledger = TokenLedger::new();
    ledger.set_balance(b, 70);
    let mut pool = LendingPool::new(POOL);
    pool.init(ADMIN, USDC).unwrap();
    assert_eq!(pool.get_pool_balance(&ledger).unwrap(), ledger.balance(POOL));
    pool.deposit(&mut ledger, &gate, b, 70).unwrap();
    assert_eq!(pool.get_pool_balance(&ledger).unwrap(), ledger.balance(POOL));
    // a movement made directly on the external ledger shows up unchanged
    ledger.set_balance(POOL, 12);
    assert_eq!(pool.get_pool_balance(&ledger).unwrap(), ledger.balance(POOL));
}

#[test]
fn deposit_requires_approval() {
    let b = Principal(2);
    let gate = AuthorizationGate::deny_all();
    let mut ledger = TokenLedger::new();
    ledger.set_balance(b, 500);
    let mut pool = LendingPool::new(POOL);
    pool.init(ADMIN, USDC).unwrap();
    assert_eq!(pool.deposit(&mut ledger, &gate, b, 500), Err(PoolError::NotAuthorized));
    assert_eq!(ledger.balance(b), 500);
}

#[test]
fn borrow_requires_approval() {
    let b = Principal(2);
    let c = Principal(3);
    let fund_gate = AuthorizationGate::approving(vec![b]);
    let mut ledger = TokenLedger::new();
    ledger.set_balance(b, 500);
    let mut pool = LendingPool::new(POOL);
    pool.init(ADMIN, USDC).unwrap();
    pool.deposit(&mut ledger, &fund_gate, b, 500).unwrap();
    let gate = AuthorizationGate::approving(vec![b]);
    assert_eq!(pool.borrow(&mut ledger, &gate, c, 100), Err(PoolError::NotAuthorized));
    assert_eq!(ledger.balance(POOL), 500);
    assert_eq!(ledger.balance(c), 0);
}

#[test]
fn deposit_of_more_than_the_depositor_holds() {
    let b = Principal(2);
    let gate = AuthorizationGate::approving(vec![b]);
    let mut ledger = TokenLedger::new();
    ledger.set_balance(b, 100);
    let mut pool = LendingPool::new(POOL);
    pool.init(ADMIN, USDC).unwrap();
    assert_eq!(
        pool.deposit(&mut ledger, &gate, b, 101),
        Err(PoolError::Transfer(TokenError::InsufficientBalance))
    );
    assert_eq!(ledger.balance(b), 100);
    assert_eq!(ledger.balance(POOL), 0);
}

#[test]
fn deposit_of_negative_amount() {
    let b = Principal(2);
    let gate = AuthorizationGate::approving(vec![b]);
    let mut ledger = TokenLedger::new();
    ledger.set_balance(b, 100);
    let mut pool = LendingPool::new(POOL);
    pool.init(ADMIN, USDC).unwrap();
    assert_eq!(
        pool.deposit(&mut ledger, &gate, b, -1),
        Err(PoolError::Transfer(TokenError::NegativeAmount))
    );
    assert_eq!(ledger.balance(b), 100);
}

#[test]
fn borrow_of_negative_amount() {
    let c = Principal(3);
    let gate = AuthorizationGate::approving(vec![c]);
    let mut ledger = TokenLedger::new();
    ledger.set_balance(POOL, 50);
    let mut pool = LendingPool::new(POOL);
    pool.init(ADMIN, USDC).unwrap();
    // a negative amount passes the liquidity comparison but the ledger
    // refuses to move it
    assert_eq!(
        pool.borrow(&mut ledger, &gate, c, -1),
        Err(PoolError::Transfer(TokenError::NegativeAmount))
    );
    assert_eq!(ledger.balance(POOL), 50);
    assert_eq!(ledger.balance(c), 0);
}

#[test]
fn deposit_overflowing_the_pool_balance() {
    let b = Principal(2);
    let gate = AuthorizationGate::approving(vec![b]);
    let mut ledger = TokenLedger::new();
    ledger.set_balance(b, 2);
    ledger.set_balance(POOL, i128::MAX);
    let mut pool = LendingPool::new(POOL);
    pool.init(ADMIN, USDC).unwrap();
    assert_eq!(
        pool.deposit(&mut ledger, &gate, b, 1),
        Err(PoolError::Transfer(TokenError::BalanceOverflow))
    );
    assert_eq!(ledger.balance(b), 2);
    assert_eq!(ledger.balance(POOL), i128::MAX);
}

#[test]
fn transfer_moves_exactly_the_amount() {
    let x = Principal(4);
    let y = Principal(5);
    let mut ledger = TokenLedger::new();
    ledger.set_balance(x, 10);
    assert_eq!(ledger.transfer(x, y, 4), Ok(()));
    assert_eq!(ledger.balance(x), 6);
    assert_eq!(ledger.balance(y), 4);
}

#[test]
fn transfer_to_self_changes_nothing() {
    let x = Principal(4);
    let mut ledger = TokenLedger::new();
    ledger.set_balance(x, 10);
    assert_eq!(ledger.transfer(x, x, 7), Ok(()));
    assert_eq!(ledger.balance(x), 10);
}

#[test]
fn unknown_principal_holds_zero() {
    let ledger = TokenLedger::new();
    assert_eq!(ledger.balance(Principal(123)), 0);
}

#[test]
fn notifications_record_deposits_and_borrows_in_order() {
    let b = Principal(2);
    let c = Principal(3);
    let gate = AuthorizationGate::approving(vec![b, c]);
    let mut ledger = TokenLedger::new();
    ledger.set_balance(b, 500);
    let mut pool = LendingPool::new(POOL);
    pool.init(ADMIN, USDC).unwrap();
    assert!(pool.notifications().is_empty());
    pool.deposit(&mut ledger, &gate, b, 500).unwrap();
    pool.borrow(&mut ledger, &gate, c, 300).unwrap();
    assert_eq!(
        pool.notifications().as_slice(),
        &[
            PoolEvent::Deposit { from: b, amount: 500 },
            PoolEvent::Borrow { borrower: c, amount: 300 },
        ]
    );
    // a refused call emits nothing
    assert_eq!(pool.borrow(&mut ledger, &gate, c, 300), Err(PoolError::InsufficientLiquidity));
    assert_eq!(pool.notifications().len(), 2);
}

#[test]
fn from_parts_rebuilds_a_stored_pool() {
    let pool = LendingPool::from_parts(POOL, Some(ADMIN), Some(USDC), Vec::new()).unwrap();
    assert_eq!(pool.pool_address(), POOL);
    assert_eq!(pool.admin(), Some(ADMIN));
    assert_eq!(pool.token_address(), Some(USDC));
    let ledger = TokenLedger::new();
    assert_eq!(pool.get_pool_balance(&ledger), Ok(0));
    let fresh = LendingPool::from_parts(POOL, None, None, Vec::new()).unwrap();
    assert_eq!(fresh.get_pool_balance(&ledger), Err(PoolError::NotInitialized));
}

#[test]
fn from_parts_refuses_half_written_configuration() {
    assert!(LendingPool::from_parts(POOL, Some(ADMIN), None, Vec::new()).is_none());
    assert!(LendingPool::from_parts(POOL, None, Some(USDC), Vec::new()).is_none());
}

#[test]
fn pool_error_messages() {
    assert_eq!(PoolError::AlreadyInitialized.message(), "Already initialized");
    assert_eq!(PoolError::NotInitialized.message(), "Not initialized");
    assert_eq!(PoolError::InsufficientLiquidity.message(), "Insufficient pool liquidity");
    assert_eq!(PoolError::NotAuthorized.message(), "Not authorized");
    assert_eq!(
        PoolError::Transfer(TokenError::NegativeAmount).message(),
        "Transfer refused by the asset ledger"
    );
}
