use erc6909::account::Account;
use erc6909::engine::ERC6909;
use erc6909::errors::ERC6909Error;
use erc6909::events::Event;
use erc6909::uint256::Uint256;

fn acct(n: u128) -> Account {
    Account::new(0, n)
}

fn amt(n: u128) -> Uint256 {
    Uint256::from_u128(n)
}

#[test]
fn test_erc6909() {
    // End to end: mint, approve, a failed over-consumption, a consumption.
    let mut ledger = ERC6909::new();
    let a = acct(0xaa);
    let b = acct(0xbb);
    let id = amt(1);

    assert_eq!(ledger.balance_of(a, id), amt(0));
    assert!(ledger._mint(a, id, amt(100)).is_ok());
    assert_eq!(ledger.balance_of(a, id), amt(100));
    assert_eq!(
        ledger.events[0],
        Event::Transfer { from: Account::zero(), to: a, id, value: amt(100) }
    );

    assert!(ledger.approve(a, b, id, amt(40)).is_ok());
    assert_eq!(ledger.allowance(a, b, id), amt(40));
    assert_eq!(
        ledger.events[1],
        Event::Approval { owner: a, spender: b, id, value: amt(40) }
    );

    let failed = ledger._spend_allowance(a, b, id, amt(50));
    assert_eq!(
        failed,
        Err(ERC6909Error::ERC6909InsufficientAllowance {
            owner: a,
            allowance: amt(40),
            needed: amt(50),
            id,
        })
    );
    assert_eq!(ledger.allowance(a, b, id), amt(40));
    assert_eq!(ledger.balance_of(a, id), amt(100));
    assert_eq!(ledger.events.len(), 2);

    assert!(ledger._spend_allowance(a, b, id, amt(40)).is_ok());
    assert_eq!(ledger.allowance(a, b, id), amt(0));
    assert_eq!(ledger.events.len(), 2);
}

#[test]
fn test_fresh_ledger_reads_zero() {
    let ledger = ERC6909::new();
    assert_eq!(ledger.balance_of(acct(1), amt(9)), amt(0));
    assert_eq!(ledger.allowance(acct(1), acct(2), amt(9)), amt(0));
    assert!(!ledger.is_operator(acct(1), acct(2)));
    assert!(ledger.events.is_empty());
}

#[test]
fn test_conservation_scenario() {
    // Sum of balances tracks minted minus burned: 100 in, 20 out, 80 held.
    let mut ledger = ERC6909::new();
    let a = acct(1);
    let b = acct(2);
    let id = amt(5);
    assert!(ledger._mint(a, id, amt(100)).is_ok());
    assert!(ledger._transfer(a, b, id, amt(30)).is_ok());
    assert!(ledger._burn(b, id, amt(20)).is_ok());
    assert_eq!(ledger.balance_of(a, id), amt(70));
    assert_eq!(ledger.balance_of(b, id), amt(10));
}

#[test]
fn test_insufficient_balance_leaves_state_unchanged() {
    let mut ledger = ERC6909::new();
    let a = acct(1);
    let b = acct(2);
    let id = amt(1);
    assert!(ledger._mint(a, id, amt(10)).is_ok());
    let r = ledger._transfer(a, b, id, amt(11));
    assert_eq!(
        r,
        Err(ERC6909Error::ERC6909InsufficientBalance {
            sender: a,
            balance: amt(10),
            needed: amt(11),
            id,
        })
    );
    assert_eq!(ledger.balance_of(a, id), amt(10));
    assert_eq!(ledger.balance_of(b, id), amt(0));
}

#[test]
fn test_transfer_zero_sender_rejected() {
    let mut ledger = ERC6909::new();
    let r = ledger._transfer(Account::zero(), acct(2), amt(1), amt(5));
    assert_eq!(r, Err(ERC6909Error::ERC6909InvalidSender { sender: Account::zero() }));
}

#[test]
fn test_transfer_zero_receiver_rejected() {
    let mut ledger = ERC6909::new();
    let a = acct(1);
    assert!(ledger._mint(a, amt(1), amt(5)).is_ok());
    let r = ledger._transfer(a, Account::zero(), amt(1), amt(5));
    assert_eq!(r, Err(ERC6909Error::ERC6909InvalidReciver { reciver: Account::zero() }));
    assert_eq!(ledger.balance_of(a, amt(1)), amt(5));
}

#[test]
fn test_approve_zero_owner_rejected() {
    let mut ledger = ERC6909::new();
    let r = ledger.approve(Account::zero(), acct(2), amt(1), amt(5));
    assert_eq!(r, Err(ERC6909Error::ERC6909InvalidSender { sender: Account::zero() }));
}

#[test]
fn test_approve_zero_spender_rejected() {
    let mut ledger = ERC6909::new();
    let r = ledger.approve(acct(1), Account::zero(), amt(1), amt(5));
    assert_eq!(r, Err(ERC6909Error::ERC6909InvalidReciver { reciver: Account::zero() }));
}

#[test]
fn test_allowance_consumption() {
    // With allowance A, consuming v <= A leaves A - v; v > A fails and
    // leaves the allowance unchanged.
    let mut ledger = ERC6909::new();
    let o = acct(1);
    let s = acct(2);
    let id = amt(3);
    assert!(ledger.approve(o, s, id, amt(25)).is_ok());
    assert!(ledger._spend_allowance(o, s, id, amt(10)).is_ok());
    assert_eq!(ledger.allowance(o, s, id), amt(15));
    let r = ledger._spend_allowance(o, s, id, amt(16));
    assert_eq!(
        r,
        Err(ERC6909Error::ERC6909InsufficientAllowance {
            owner: o,
            allowance: amt(15),
            needed: amt(16),
            id,
        })
    );
    assert_eq!(ledger.allowance(o, s, id), amt(15));
}

#[test]
fn test_approve_overwrites_not_accumulates() {
    let mut ledger = ERC6909::new();
    let o = acct(1);
    let s = acct(2);
    let id = amt(1);
    assert!(ledger.approve(o, s, id, amt(5)).is_ok());
    assert!(ledger.approve(o, s, id, amt(3)).is_ok());
    assert_eq!(ledger.allowance(o, s, id), amt(3));
}

#[test]
fn test_mint_burn_symmetry() {
    let mut ledger = ERC6909::new();
    let a = acct(7);
    let id = amt(2);
    assert!(ledger._mint(a, id, amt(33)).is_ok());
    assert!(ledger._mint(a, id, amt(9)).is_ok());
    let before = ledger.balance_of(a, id);
    assert!(ledger._mint(a, id, amt(50)).is_ok());
    assert!(ledger._burn(a, id, amt(50)).is_ok());
    assert_eq!(ledger.balance_of(a, id), before);
    let n = ledger.events.len();
    assert_eq!(
        ledger.events[n - 2],
        Event::Transfer { from: Account::zero(), to: a, id, value: amt(50) }
    );
    assert_eq!(
        ledger.events[n - 1],
        Event::Transfer { from: a, to: Account::zero(), id, value: amt(50) }
    );
}

#[test]
fn test_burn_more_than_balance_rejected() {
    let mut ledger = ERC6909::new();
    let a = acct(1);
    let id = amt(1);
    assert!(ledger._mint(a, id, amt(4)).is_ok());
    let r = ledger._burn(a, id, amt(5));
    assert_eq!(
        r,
        Err(ERC6909Error::ERC6909InsufficientBalance {
            sender: a,
            balance: amt(4),
            needed: amt(5),
            id,
        })
    );
    assert_eq!(ledger.balance_of(a, id), amt(4));
}

#[test]
fn test_set_operator() {
    let mut ledger = ERC6909::new();
    let o = acct(1);
    let s = acct(2);
    assert!(ledger.set_operator(o, s, true).is_ok());
    assert!(ledger.is_operator(o, s));
    assert!(!ledger.is_operator(s, o));
    assert_eq!(ledger.events[0], Event::OperatorSet { owner: o, spender: s, approved: true });
    assert!(ledger.set_operator(o, s, false).is_ok());
    assert!(!ledger.is_operator(o, s));
}

#[test]
fn test_set_operator_zero_addresses_rejected() {
    // Both zero-address operands of an operator grant surface as the
    // "sender" class of error.
    let mut ledger = ERC6909::new();
    let r = ledger.set_operator(Account::zero(), acct(2), true);
    assert_eq!(r, Err(ERC6909Error::ERC6909InvalidSender { sender: Account::zero() }));
    let r2 = ledger.set_operator(acct(1), Account::zero(), true);
    assert_eq!(r2, Err(ERC6909Error::ERC6909InvalidSender { sender: Account::zero() }));
}

#[test]
fn test_transfer_from_by_owner() {
    let mut ledger = ERC6909::new();
    let a = acct(1);
    let b = acct(2);
    let id = amt(1);
    assert!(ledger._mint(a, id, amt(10)).is_ok());
    assert!(ledger.transfer_from(a, a, b, id, amt(4)).is_ok());
    assert_eq!(ledger.balance_of(a, id), amt(6));
    assert_eq!(ledger.balance_of(b, id), amt(4));
}

#[test]
fn test_transfer_from_by_operator_skips_allowance() {
    let mut ledger = ERC6909::new();
    let owner = acct(1);
    let operator = acct(2);
    let dest = acct(3);
    let id = amt(1);
    assert!(ledger._mint(owner, id, amt(10)).is_ok());
    assert!(ledger.set_operator(owner, operator, true).is_ok());
    assert!(ledger.transfer_from(operator, owner, dest, id, amt(7)).is_ok());
    assert_eq!(ledger.balance_of(owner, id), amt(3));
    assert_eq!(ledger.balance_of(dest, id), amt(7));
    assert_eq!(ledger.allowance(owner, operator, id), amt(0));
}

#[test]
fn test_transfer_from_consumes_allowance() {
    let mut ledger = ERC6909::new();
    let owner = acct(1);
    let spender = acct(2);
    let dest = acct(3);
    let id = amt(1);
    assert!(ledger._mint(owner, id, amt(10)).is_ok());
    assert!(ledger.approve(owner, spender, id, amt(9)).is_ok());
    assert!(ledger.transfer_from(spender, owner, dest, id, amt(6)).is_ok());
    assert_eq!(ledger.balance_of(owner, id), amt(4));
    assert_eq!(ledger.balance_of(dest, id), amt(6));
    assert_eq!(ledger.allowance(owner, spender, id), amt(3));
}

#[test]
fn test_transfer_from_insufficient_allowance() {
    let mut ledger = ERC6909::new();
    let owner = acct(1);
    let spender = acct(2);
    let dest = acct(3);
    let id = amt(1);
    assert!(ledger._mint(owner, id, amt(10)).is_ok());
    assert!(ledger.approve(owner, spender, id, amt(5)).is_ok());
    let r = ledger.transfer_from(spender, owner, dest, id, amt(6));
    assert_eq!(
        r,
        Err(ERC6909Error::ERC6909InsufficientAllowance {
            owner,
            allowance: amt(5),
            needed: amt(6),
            id,
        })
    );
    assert_eq!(ledger.balance_of(owner, id), amt(10));
    assert_eq!(ledger.allowance(owner, spender, id), amt(5));
}

#[test]
fn test_mint_to_zero_emits_but_credits_nothing() {
    // A movement with both sides zero touches no balance yet still notifies:
    // that is how the movement primitive behaves when both steps are skipped.
    let mut ledger = ERC6909::new();
    let id = amt(1);
    assert!(ledger._mint(Account::zero(), id, amt(5)).is_ok());
    assert_eq!(ledger.balance_of(Account::zero(), id), amt(0));
    assert_eq!(
        ledger.events[0],
        Event::Transfer { from: Account::zero(), to: Account::zero(), id, value: amt(5) }
    );
}

#[test]
fn test_uint256_add_carries_across_limbs() {
    let a = Uint256::new(0, u128::MAX);
    let one = Uint256::from_u128(1);
    assert_eq!(a.add(one), Uint256::new(1, 0));
    let b = Uint256::new(3, 10);
    let c = Uint256::new(5, u128::MAX - 4);
    assert_eq!(b.add(c), Uint256::new(9, 5));
}

#[test]
fn test_uint256_sub_borrows_across_limbs() {
    let a = Uint256::new(1, 0);
    let one = Uint256::from_u128(1);
    assert_eq!(a.sub(one), Uint256::new(0, u128::MAX));
    assert_eq!(a.sub(a), Uint256::new(0, 0));
}

#[test]
fn test_uint256_comparison_orders_by_value() {
    let small = Uint256::new(0, u128::MAX);
    let big = Uint256::new(1, 0);
    assert!(small.lt(&big));
    assert!(!big.lt(&small));
    assert!(!big.lt(&big));
    assert!(Uint256::zero().is_zero());
    assert!(!big.is_zero());
}

#[test]
fn test_self_transfer_keeps_balance() {
    let mut ledger = ERC6909::new();
    let a = acct(1);
    let id = amt(1);
    assert!(ledger._mint(a, id, amt(10)).is_ok());
    assert!(ledger._transfer(a, a, id, amt(6)).is_ok());
    assert_eq!(ledger.balance_of(a, id), amt(10));
}

#[test]
fn test_zero_value_transfer() {
    let mut ledger = ERC6909::new();
    let a = acct(1);
    let b = acct(2);
    let id = amt(1);
    assert!(ledger._transfer(a, b, id, amt(0)).is_ok());
    assert_eq!(ledger.balance_of(a, id), amt(0));
    assert_eq!(ledger.balance_of(b, id), amt(0));
    assert_eq!(ledger.events[0], Event::Transfer { from: a, to: b, id, value: amt(0) });
}

#[test]
fn test_mint_largest_value() {
    let mut ledger = ERC6909::new();
    let a = acct(1);
    let id = amt(1);
    let all = Uint256::new(u128::MAX, u128::MAX);
    assert!(ledger._mint(a, id, all).is_ok());
    assert_eq!(ledger.balance_of(a, id), all);
    assert!(ledger._burn(a, id, all).is_ok());
    assert_eq!(ledger.balance_of(a, id), amt(0));
}

#[test]
fn test_token_ids_are_independent() {
    let mut ledger = ERC6909::new();
    let a = acct(1);
    let b = acct(2);
    assert!(ledger._mint(a, amt(1), amt(5)).is_ok());
    assert!(ledger._mint(a, amt(2), amt(7)).is_ok());
    assert_eq!(ledger.balance_of(a, amt(1)), amt(5));
    assert_eq!(ledger.balance_of(a, amt(2)), amt(7));
    assert!(ledger.approve(a, b, amt(1), amt(3)).is_ok());
    assert_eq!(ledger.allowance(a, b, amt(1)), amt(3));
    assert_eq!(ledger.allowance(a, b, amt(2)), amt(0));
}

#[test]
fn test_account_zero_sentinel() {
    assert!(Account::zero().is_zero());
    assert!(!acct(1).is_zero());
    assert_eq!(Account::zero(), Account::new(0, 0));
}
