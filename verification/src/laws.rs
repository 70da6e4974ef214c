use vstd::prelude::*;
use crate::account::Account;
use crate::engine::ERC6909;
use crate::events::Event;
use crate::uint256::Uint256;

verus! {

/// Conservation of value: in a well-formed ledger — and every operation
/// both requires and re-establishes well-formedness, so this holds after
/// any sequence of mints, burns and transfers — the sum over all owners of
/// the balances of a token id equals the cumulative amount minted of that
/// id minus the cumulative amount burned of it.
pub proof fn lemma_conservation(s: ERC6909, id: Uint256)
    requires
        s.wf(),
    ensures
        s.total_supply(id) == s.total_minted(id) - s.total_burned(id),
{
}

/// Non-negativity: no balance is ever below zero.  The numeric domain is
/// unsigned, and the movement contracts state the complementary half: an
/// operation that would underflow fails with `ERC6909InsufficientBalance`
/// and leaves the state unchanged.
pub proof fn lemma_balance_nonnegative(s: ERC6909, owner: Account, id: Uint256)
    ensures
        0 <= s.spec_balance(owner, id).as_int() < Uint256::modulus(),
{
    s.spec_balance(owner, id).lemma_in_range();
}

/// Approval overwrites, it never accumulates: after two successive
/// successful approvals of the same `(owner, spender, id)` triple, the
/// allowance holds exactly the second amount, and every other triple still
/// holds what it held before the first approval.
pub proof fn lemma_approve_overwrites(
    s0: ERC6909,
    s1: ERC6909,
    s2: ERC6909,
    owner: Account,
    spender: Account,
    id: Uint256,
    first: Uint256,
    second: Uint256,
)
    requires
        ERC6909::approval_set(s0, s1, owner, spender, id, first),
        ERC6909::approval_set(s1, s2, owner, spender, id, second),
    ensures
        s2.spec_allowance(owner, spender, id) == second,
        forall|o: Account, s: Account, i: Uint256|
            !(o == owner && s == spender && i == id) ==> #[trigger] s2.spec_allowance(o, s, i)
                == s0.spec_allowance(o, s, i),
{
}

/// Mint/burn symmetry: minting `value` of token `id` to an account and then
/// burning the same amount from it returns every balance to its pre-mint
/// value, and the two `Transfer` notifications carry the zero address as the
/// mint's source and as the burn's destination.
pub proof fn lemma_mint_burn_symmetry(
    s0: ERC6909,
    s1: ERC6909,
    s2: ERC6909,
    to: Account,
    id: Uint256,
    value: Uint256,
)
    requires
        ERC6909::moved(s0, s1, Account::spec_zero(), to, id, value),
        ERC6909::moved(s1, s2, to, Account::spec_zero(), id, value),
    ensures
        forall|o: Account, i: Uint256| #[trigger] s2.spec_balance(o, i) == s0.spec_balance(o, i),
        s1.events@ == s0.events@.push(
            Event::Transfer { from: Account::spec_zero(), to, id, value },
        ),
        s2.events@ == s1.events@.push(
            Event::Transfer { from: to, to: Account::spec_zero(), id, value },
        ),
{
    assert forall|o: Account, i: Uint256| #[trigger] s2.spec_balance(o, i) == s0.spec_balance(
        o,
        i,
    ) by {
        assert(s2.spec_balance(o, i).as_int() == s0.spec_balance(o, i).as_int());
        Uint256::lemma_as_int_injective(s2.spec_balance(o, i), s0.spec_balance(o, i));
    }
}

} // verus!
