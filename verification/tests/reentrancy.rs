use coralswap::errors::PairError;
use coralswap::reentrancy::ReentrancyGuard;

/// Acquires the guard, hits an error while holding it, and releases it on
/// the way out.
fn operation_that_fails(guard: &mut ReentrancyGuard) -> Result<(), PairError> {
    guard.acquire()?;
    let result = Err(PairError::InsufficientLiquidity);
    guard.release();
    result
}

/// Acquires the guard and fails or succeeds as asked, releasing it either way.
fn operation_that_might_panic(guard: &mut ReentrancyGuard, should_fail: bool) -> Result<(), PairError> {
    guard.acquire()?;
    let result = if should_fail { Err(PairError::InsufficientLiquidity) } else { Ok(()) };
    guard.release();
    result
}

#[test]
fn test_guard_acquire_succeeds_on_first_call() {
    let mut guard = ReentrancyGuard::new();
    let first = guard.acquire();
    assert!(first.is_ok(), "guard acquire should succeed on first call");
    guard.release();
}

#[test]
fn test_guard_returns_locked_if_already_held() {
    let mut guard = ReentrancyGuard::new();
    let first = guard.acquire();
    assert!(first.is_ok(), "first guard acquire should succeed");

    let second = guard.acquire();
    assert!(matches!(second, Err(PairError::Locked)), "second acquire should return Locked while first guard is held");
    guard.release();
}

#[test]
fn test_guard_releases_automatically_on_drop() {
    let mut guard = ReentrancyGuard::new();
    {
        let first = guard.acquire();
        assert!(first.is_ok(), "first guard acquire should succeed");
        guard.release();
    }

    let second = guard.acquire();
    assert!(second.is_ok(), "acquire should succeed after first guard dropped");
    guard.release();
}

#[test]
fn test_guard_releases_on_early_return() {
    let mut guard = ReentrancyGuard::new();

    let result = operation_that_fails(&mut guard);
    assert!(result.is_err(), "operation should fail");

    let result2 = operation_that_fails(&mut guard);
    assert!(result2.is_err(), "second operation should also fail but acquire guard successfully");
    assert_eq!(result2, Err(PairError::InsufficientLiquidity));
}

#[test]
fn test_lock_state_persists_while_guard_held() {
    let mut guard = ReentrancyGuard::new();
    guard.acquire().unwrap();

    let result = guard.acquire();
    assert!(matches!(result, Err(PairError::Locked)), "lock should persist while guard is held");
    guard.release();

    let result = guard.acquire();
    assert!(result.is_ok(), "lock should be cleared after guard dropped");
    guard.release();
}

#[test]
fn test_guard_lock_error_autorelease_relock_cycle() {
    let mut guard = ReentrancyGuard::new();
    {
        let result1 = guard.acquire();
        assert!(result1.is_ok(), "step 1: guard acquire should succeed");

        let result2 = guard.acquire();
        assert!(matches!(result2, Err(PairError::Locked)), "step 2: should get Locked error");
        guard.release();
    }

    {
        let result3 = guard.acquire();
        assert!(result3.is_ok(), "step 3: acquire should succeed after first guard dropped");

        let result4 = guard.acquire();
        assert!(matches!(result4, Err(PairError::Locked)), "step 4: should get Locked error again");
        guard.release();
    }

    let result5 = guard.acquire();
    assert!(result5.is_ok(), "step 5: clean state for next invocation");
    guard.release();
}

#[test]
fn test_separate_envs_have_independent_locks() {
    let mut guard1 = ReentrancyGuard::new();
    let mut guard2 = ReentrancyGuard::new();

    let first = guard1.acquire();
    assert!(first.is_ok(), "env1: guard acquire should succeed");
    guard1.release();

    let second = guard2.acquire();
    assert!(second.is_ok(), "env2: should have independent lock state");

    let result3 = guard2.acquire();
    assert!(matches!(result3, Err(PairError::Locked)), "env2: second acquire should fail");
    guard2.release();

    let result4 = guard1.acquire();
    assert!(result4.is_ok(), "env1: should be unlocked after guard dropped");
    guard1.release();
}

#[test]
fn test_default_state_is_unlocked() {
    let mut guard = ReentrancyGuard::new();
    let first = guard.acquire();
    assert!(first.is_ok(), "fresh env should be unlocked");

    let result2 = guard.acquire();
    assert!(matches!(result2, Err(PairError::Locked)), "should be locked while guard is held");
    guard.release();
}

#[test]
fn test_guard_automatic_cleanup() {
    let mut guard = ReentrancyGuard::new();
    {
        guard.acquire().unwrap();
        guard.release();
    }
    {
        guard.acquire().unwrap();
        guard.release();
    }

    let result = guard.acquire();
    assert!(result.is_ok(), "acquire should succeed after all guards dropped");
    guard.release();
}

#[test]
fn test_guard_releases_even_on_panic_simulation() {
    let mut guard = ReentrancyGuard::new();

    let result1 = operation_that_might_panic(&mut guard, true);
    assert!(result1.is_err(), "operation should fail");

    let result2 = operation_that_might_panic(&mut guard, false);
    assert!(result2.is_ok(), "second operation should succeed - guard was released");

    let result3 = operation_that_might_panic(&mut guard, false);
    assert!(result3.is_ok(), "third operation should succeed");
}

#[test]
fn test_concurrent_operation_rejected() {
    let mut guard = ReentrancyGuard::new();
    guard.acquire().unwrap();

    let concurrent_attempt = guard.acquire();
    assert!(
        matches!(concurrent_attempt, Err(PairError::Locked)),
        "concurrent operation should be rejected with Locked error"
    );
    guard.release();

    let result = guard.acquire();
    assert!(result.is_ok(), "new operation should succeed after previous completed");
    guard.release();
}

#[test]
fn locked_acquire_leaves_lock_held() {
    let mut guard = ReentrancyGuard { locked: true };
    assert_eq!(guard.acquire(), Err(PairError::Locked));
    assert!(guard.locked);
    guard.release();
    assert!(!guard.locked);
    guard.release();
    assert!(!guard.locked);
}
