use vstd::prelude::*;
use crate::account::Account;
use crate::allowances::AllowanceRegistry;
use crate::balances::BalanceLedger;
use crate::errors::ERC6909Error;
use crate::events::Event;
use crate::operators::OperatorRegistry;
use crate::uint256::Uint256;

verus! {

/// The multi-token ledger: balances, allowances and operator grants,
/// together with the log of notifications emitted so far.  The ghost
/// `minted` and `burned` maps record the cumulative amount ever minted and
/// ever burned of each token id; well-formedness ties them to the sum of all
/// balances, which is how conservation of value is carried from one
/// operation to the next.
pub struct ERC6909 {
    pub balances: BalanceLedger,
    pub allowances: AllowanceRegistry,
    pub operators: OperatorRegistry,
    pub events: Vec<Event>,
    pub minted: Ghost<Map<Uint256, int>>,
    pub burned: Ghost<Map<Uint256, int>>,
}

impl ERC6909 {
    /// The balance of `(owner, id)`; zero for an unknown pair.
    pub open spec fn spec_balance(self, owner: Account, id: Uint256) -> Uint256 {
        self.balances.spec_get(owner, id)
    }

    /// The allowance of `(owner, spender, id)`; zero for an unknown triple.
    pub open spec fn spec_allowance(self, owner: Account, spender: Account, id: Uint256) -> Uint256 {
        self.allowances.spec_get(owner, spender, id)
    }

    /// The operator flag of `(owner, spender)`; `false` for an unknown pair.
    pub open spec fn spec_operator(self, owner: Account, spender: Account) -> bool {
        self.operators.spec_get(owner, spender)
    }

    /// The sum over all owners of the balances of token `id`.
    pub open spec fn total_supply(self, id: Uint256) -> int {
        self.balances.spec_sum(id)
    }

    /// The cumulative amount ever minted of token `id`.
    pub open spec fn total_minted(self, id: Uint256) -> int {
        if self.minted@.dom().contains(id) {
            self.minted@[id]
        } else {
            0
        }
    }

    /// The cumulative amount ever burned of token `id`.
    pub open spec fn total_burned(self, id: Uint256) -> int {
        if self.burned@.dom().contains(id) {
            self.burned@[id]
        } else {
            0
        }
    }

    /// Well-formedness: the three mappings keep their key uniqueness, and
    /// for every token id the sum of all balances equals what was minted
    /// minus what was burned.
    pub open spec fn wf(self) -> bool {
        &&& self.balances.wf()
        &&& self.allowances.wf()
        &&& self.operators.wf()
        &&& forall|id: Uint256|
            #[trigger] self.balances.spec_sum(id) == self.total_minted(id) - self.total_burned(id)
    }

    /// A successful movement step: `value` of token `id` left `from` (unless
    /// `from` is the zero address, the synthetic source of a mint) and
    /// reached `to` (unless `to` is the zero address, the synthetic
    /// destination of a burn); one `Transfer` notification was appended; the
    /// mint and burn tallies grew on the zero-address sides; nothing else
    /// changed.
    pub open spec fn moved(
        pre: ERC6909,
        post: ERC6909,
        from: Account,
        to: Account,
        id: Uint256,
        value: Uint256,
    ) -> bool {
        &&& forall|o: Account, i: Uint256|
            #[trigger] post.spec_balance(o, i).as_int() == pre.spec_balance(o, i).as_int() - (
            if from != Account::spec_zero() && o == from && i == id {
                value.as_int()
            } else {
                0
            }) + (
            if to != Account::spec_zero() && o == to && i == id {
                value.as_int()
            } else {
                0
            })
        &&& post.allowances == pre.allowances
        &&& post.operators == pre.operators
        &&& post.events@ == pre.events@.push(Event::Transfer { from, to, id, value })
        &&& forall|i: Uint256|
            #[trigger] post.total_minted(i) == pre.total_minted(i) + (
            if from == Account::spec_zero() && i == id {
                value.as_int()
            } else {
                0
            })
        &&& forall|i: Uint256|
            #[trigger] post.total_burned(i) == pre.total_burned(i) + (
            if to == Account::spec_zero() && i == id {
                value.as_int()
            } else {
                0
            })
    }

    /// A successful allowance overwrite: the one triple now holds `value`,
    /// one `Approval` notification was appended, and nothing else changed.
    pub open spec fn approval_set(
        pre: ERC6909,
        post: ERC6909,
        owner: Account,
        spender: Account,
        id: Uint256,
        value: Uint256,
    ) -> bool {
        &&& forall|o: Account, s: Account, i: Uint256|
            #[trigger] post.spec_allowance(o, s, i) == if o == owner && s == spender && i == id {
                value
            } else {
                pre.spec_allowance(o, s, i)
            }
        &&& post.balances == pre.balances
        &&& post.operators == pre.operators
        &&& post.events@ == pre.events@.push(Event::Approval { owner, spender, id, value })
        &&& post.minted@ == pre.minted@
        &&& post.burned@ == pre.burned@
    }

    /// A successful operator overwrite: the one pair now holds `approved`,
    /// one `OperatorSet` notification was appended, and nothing else changed.
    pub open spec fn operator_set(
        pre: ERC6909,
        post: ERC6909,
        owner: Account,
        spender: Account,
        approved: bool,
    ) -> bool {
        &&& forall|o: Account, s: Account|
            #[trigger] post.spec_operator(o, s) == if o == owner && s == spender {
                approved
            } else {
                pre.spec_operator(o, s)
            }
        &&& post.balances == pre.balances
        &&& post.allowances == pre.allowances
        &&& post.events@ == pre.events@.push(Event::OperatorSet { owner, spender, approved })
        &&& post.minted@ == pre.minted@
        &&& post.burned@ == pre.burned@
    }

    /// A successful allowance consumption: the one triple shrank by `value`
    /// and nothing else changed (only the initiating approval notifies, a
    /// consumption does not).
    pub open spec fn allowance_spent(
        pre: ERC6909,
        post: ERC6909,
        owner: Account,
        spender: Account,
        id: Uint256,
        value: Uint256,
    ) -> bool {
        &&& forall|o: Account, s: Account, i: Uint256|
            #[trigger] post.spec_allowance(o, s, i).as_int() == pre.spec_allowance(o, s, i).as_int()
                - (if o == owner && s == spender && i == id {
                value.as_int()
            } else {
                0
            })
        &&& post.balances == pre.balances
        &&& post.operators == pre.operators
        &&& post.events@ == pre.events@
        &&& post.minted@ == pre.minted@
        &&& post.burned@ == pre.burned@
    }

    /// A successful transfer paid for out of an allowance: the balances
    /// moved between two real accounts, the allowance of
    /// `(from, caller, id)` shrank by `value`, one `Transfer` notification
    /// was appended, and nothing else changed.
    pub open spec fn moved_with_allowance(
        pre: ERC6909,
        post: ERC6909,
        caller: Account,
        from: Account,
        to: Account,
        id: Uint256,
        value: Uint256,
    ) -> bool {
        &&& forall|o: Account, i: Uint256|
            #[trigger] post.spec_balance(o, i).as_int() == pre.spec_balance(o, i).as_int() - (
            if o == from && i == id {
                value.as_int()
            } else {
                0
            }) + (
            if o == to && i == id {
                value.as_int()
            } else {
                0
            })
        &&& forall|o: Account, s: Account, i: Uint256|
            #[trigger] post.spec_allowance(o, s, i).as_int() == pre.spec_allowance(o, s, i).as_int()
                - (if o == from && s == caller && i == id {
                value.as_int()
            } else {
                0
            })
        &&& post.operators == pre.operators
        &&& post.events@ == pre.events@.push(Event::Transfer { from, to, id, value })
        &&& forall|i: Uint256| #[trigger] post.total_minted(i) == pre.total_minted(i)
        &&& forall|i: Uint256| #[trigger] post.total_burned(i) == pre.total_burned(i)
    }

    /// The credit that a movement step would perform stays inside the
    /// 256-bit domain.  A machine limit, not a rule of the ledger: the
    /// numeric width is treated as practically unbounded, and a caller owes
    /// this bound only on inputs whose debit side would go through.
    pub open spec fn update_fits(
        s: ERC6909,
        from: Account,
        to: Account,
        id: Uint256,
        value: Uint256,
    ) -> bool {
        (to != Account::spec_zero() && (from == Account::spec_zero() || value.as_int()
            <= s.spec_balance(from, id).as_int())) ==> s.spec_balance(to, id).as_int() - (
        if from == to {
            value.as_int()
        } else {
            0
        }) + value.as_int() < Uint256::modulus()
    }

    /// `update_fits` on the inputs a transfer forwards to the movement step.
    pub open spec fn transfer_fits(
        s: ERC6909,
        from: Account,
        to: Account,
        id: Uint256,
        value: Uint256,
    ) -> bool {
        from != Account::spec_zero() && to != Account::spec_zero() ==> ERC6909::update_fits(
            s,
            from,
            to,
            id,
            value,
        )
    }

    /// A fresh ledger: every balance and allowance zero, no operator set, no
    /// notification emitted, nothing minted or burned.
    pub fn new() -> (r: ERC6909)
        ensures
            r.wf(),
            forall|o: Account, i: Uint256| #[trigger] r.spec_balance(o, i) == Uint256::spec_zero(),
            forall|o: Account, s: Account, i: Uint256|
                #[trigger] r.spec_allowance(o, s, i) == Uint256::spec_zero(),
            forall|o: Account, s: Account| !(#[trigger] r.spec_operator(o, s)),
            r.events@ == Seq::<Event>::empty(),
            forall|i: Uint256| #[trigger] r.total_minted(i) == 0,
            forall|i: Uint256| #[trigger] r.total_burned(i) == 0,
    {
        ERC6909 {
            balances: BalanceLedger::new(),
            allowances: AllowanceRegistry::new(),
            operators: OperatorRegistry::new(),
            events: Vec::new(),
            minted: Ghost(Map::empty()),
            burned: Ghost(Map::empty()),
        }
    }

    /// The single primitive all movement funnels through.  When `from` is
    /// not the zero address its balance must cover `value` (else the step
    /// fails with `ERC6909InsufficientBalance` and changes nothing) and is
    /// debited; when `to` is not the zero address it is credited; a
    /// `Transfer` notification is emitted unconditionally on success, even
    /// when one side is the zero address — that is how a mint and a burn
    /// become observable.
    pub fn _update(&mut self, from: Account, to: Account, id: Uint256, value: Uint256) -> (r: Result<
        (),
        ERC6909Error,
    >)
        requires
            old(self).wf(),
            ERC6909::update_fits(*old(self), from, to, id, value),
        ensures
            final(self).wf(),
            (r is Ok) <==> (from == Account::spec_zero() || value.as_int() <= old(self).spec_balance(
                from,
                id,
            ).as_int()),
            r is Ok ==> ERC6909::moved(*old(self), *final(self), from, to, id, value),
            r is Err ==> *final(self) == *old(self) && r == Err::<(), ERC6909Error>(
                ERC6909Error::ERC6909InsufficientBalance {
                    sender: from,
                    balance: old(self).spec_balance(from, id),
                    needed: value,
                    id,
                },
            ),
    {
        if !from.is_zero() {
            let balance = self.balances.get(from, id);
            if balance.lt(&value) {
                return Err(ERC6909Error::ERC6909InsufficientBalance {
                    sender: from,
                    balance,
                    needed: value,
                    id,
                });
            }
            self.balances.debit(from, id, value);
        }
        if !to.is_zero() {
            self.balances.credit(to, id, value);
        }
        if from.is_zero() {
            let ghost grown = self.minted@.insert(id, self.total_minted(id) + value.as_int());
            self.minted = Ghost(grown);
        }
        if to.is_zero() {
            let ghost grown = self.burned@.insert(id, self.total_burned(id) + value.as_int());
            self.burned = Ghost(grown);
        }
        self.events.push(Event::Transfer { from, to, id, value });
        Ok(())
    }

    /// Creation of new balance from no source account: a movement whose
    /// `from` side is the zero address.  Never fails; authorization of
    /// minting is the surrounding entrypoint layer's responsibility, not a
    /// rule of the ledger core.
    pub fn _mint(&mut self, to: Account, id: Uint256, value: Uint256) -> (r: Result<(), ERC6909Error>)
        requires
            old(self).wf(),
            to != Account::spec_zero() ==> old(self).spec_balance(to, id).as_int() + value.as_int()
                < Uint256::modulus(),
        ensures
            final(self).wf(),
            r is Ok,
            ERC6909::moved(*old(self), *final(self), Account::spec_zero(), to, id, value),
    {
        self._update(Account::zero(), to, id, value)
    }

    /// Destruction of balance into no destination account: a movement whose
    /// `to` side is the zero address.  The balance is re-validated before
    /// delegating — a duplicate guard, the movement step checks it again.
    pub fn _burn(&mut self, owner: Account, id: Uint256, value: Uint256) -> (r: Result<
        (),
        ERC6909Error,
    >)
        requires
            old(self).wf(),
        ensures
            final(self).wf(),
            (r is Ok) <==> value.as_int() <= old(self).spec_balance(owner, id).as_int(),
            r is Ok ==> ERC6909::moved(*old(self), *final(self), owner, Account::spec_zero(), id, value),
            r is Err ==> *final(self) == *old(self) && r == Err::<(), ERC6909Error>(
                ERC6909Error::ERC6909InsufficientBalance {
                    sender: owner,
                    balance: old(self).spec_balance(owner, id),
                    needed: value,
                    id,
                },
            ),
    {
        let balance = self.balances.get(owner, id);
        if balance.lt(&value) {
            return Err(ERC6909Error::ERC6909InsufficientBalance {
                sender: owner,
                balance,
                needed: value,
                id,
            });
        }
        self._update(owner, Account::zero(), id, value)
    }

    /// A movement between two real accounts.  Fails `ERC6909InvalidSender`
    /// when `from` is the zero address, `ERC6909InvalidReciver` when `to`
    /// is, in that order; otherwise delegates to the movement step.  Does
    /// not itself check or consume any allowance.
    pub fn _transfer(&mut self, from: Account, to: Account, id: Uint256, value: Uint256) -> (r: Result<
        (),
        ERC6909Error,
    >)
        requires
            old(self).wf(),
            ERC6909::transfer_fits(*old(self), from, to, id, value),
        ensures
            final(self).wf(),
            from == Account::spec_zero() ==> *final(self) == *old(self) && r == Err::<
                (),
                ERC6909Error,
            >(ERC6909Error::ERC6909InvalidSender { sender: from }),
            from != Account::spec_zero() && to == Account::spec_zero() ==> *final(self) == *old(self)
                && r == Err::<(), ERC6909Error>(ERC6909Error::ERC6909InvalidReciver { reciver: to }),
            from != Account::spec_zero() && to != Account::spec_zero() ==> ((r is Ok) <==> value.as_int()
                <= old(self).spec_balance(from, id).as_int()),
            from != Account::spec_zero() && to != Account::spec_zero() && r is Ok
                ==> ERC6909::moved(*old(self), *final(self), from, to, id, value),
            from != Account::spec_zero() && to != Account::spec_zero() && r is Err ==> *final(self)
                == *old(self) && r == Err::<(), ERC6909Error>(
                ERC6909Error::ERC6909InsufficientBalance {
                    sender: from,
                    balance: old(self).spec_balance(from, id),
                    needed: value,
                    id,
                },
            ),
    {
        if from.is_zero() {
            return Err(ERC6909Error::ERC6909InvalidSender { sender: from });
        }
        if to.is_zero() {
            return Err(ERC6909Error::ERC6909InvalidReciver { reciver: to });
        }
        self._update(from, to, id, value)
    }

    /// Overwrites the allowance of `(owner, spender, id)` with `value` after
    /// rejecting a zero-address owner (`ERC6909InvalidSender`) or spender
    /// (`ERC6909InvalidReciver`), and emits an `Approval` notification.
    pub fn _approve(&mut self, owner: Account, spender: Account, id: Uint256, value: Uint256) -> (r:
        Result<(), ERC6909Error>)
        requires
            old(self).wf(),
        ensures
            final(self).wf(),
            owner == Account::spec_zero() ==> *final(self) == *old(self) && r == Err::<
                (),
                ERC6909Error,
            >(ERC6909Error::ERC6909InvalidSender { sender: owner }),
            owner != Account::spec_zero() && spender == Account::spec_zero() ==> *final(self) == *old(
                self,
            ) && r == Err::<(), ERC6909Error>(ERC6909Error::ERC6909InvalidReciver { reciver: spender }),
            owner != Account::spec_zero() && spender != Account::spec_zero() ==> r is Ok
                && ERC6909::approval_set(*old(self), *final(self), owner, spender, id, value),
    {
        if owner.is_zero() {
            return Err(ERC6909Error::ERC6909InvalidSender { sender: owner });
        }
        if spender.is_zero() {
            return Err(ERC6909Error::ERC6909InvalidReciver { reciver: spender });
        }
        self.allowances.set(owner, spender, id, value);
        self.events.push(Event::Approval { owner, spender, id, value });
        Ok(())
    }

    /// Overwrites the blanket-approval flag of `(owner, spender)` after
    /// rejecting a zero address on either side (both surface as
    /// `ERC6909InvalidSender` — the "sender" class covers both operands
    /// here), and emits an `OperatorSet` notification.
    pub fn _set_operator(&mut self, owner: Account, spender: Account, approved: bool) -> (r: Result<
        (),
        ERC6909Error,
    >)
        requires
            old(self).wf(),
        ensures
            final(self).wf(),
            owner == Account::spec_zero() ==> *final(self) == *old(self) && r == Err::<
                (),
                ERC6909Error,
            >(ERC6909Error::ERC6909InvalidSender { sender: owner }),
            owner != Account::spec_zero() && spender == Account::spec_zero() ==> *final(self) == *old(
                self,
            ) && r == Err::<(), ERC6909Error>(ERC6909Error::ERC6909InvalidSender { sender: spender }),
            owner != Account::spec_zero() && spender != Account::spec_zero() ==> r is Ok
                && ERC6909::operator_set(*old(self), *final(self), owner, spender, approved),
    {
        if owner.is_zero() {
            return Err(ERC6909Error::ERC6909InvalidSender { sender: owner });
        }
        if spender.is_zero() {
            return Err(ERC6909Error::ERC6909InvalidSender { sender: spender });
        }
        self.operators.set(owner, spender, approved);
        self.events.push(Event::OperatorSet { owner, spender, approved });
        Ok(())
    }

    /// Consumes `value` of the allowance `(owner, spender, id)`.  Fails
    /// `ERC6909InsufficientAllowance` and changes nothing when the remaining
    /// allowance is smaller than the request; emits no notification either
    /// way.
    pub fn _spend_allowance(&mut self, owner: Account, spender: Account, id: Uint256, value: Uint256) -> (r:
        Result<(), ERC6909Error>)
        requires
            old(self).wf(),
        ensures
            final(self).wf(),
            (r is Ok) <==> value.as_int() <= old(self).spec_allowance(owner, spender, id).as_int(),
            r is Ok ==> ERC6909::allowance_spent(*old(self), *final(self), owner, spender, id, value),
            r is Err ==> *final(self) == *old(self) && r == Err::<(), ERC6909Error>(
                ERC6909Error::ERC6909InsufficientAllowance {
                    owner,
                    allowance: old(self).spec_allowance(owner, spender, id),
                    needed: value,
                    id,
                },
            ),
    {
        self.allowances.consume(owner, spender, id, value)
    }

    /// Pure read of a balance; never fails.
    pub fn balance_of(&self, owner: Account, id: Uint256) -> (r: Uint256)
        ensures
            r == self.spec_balance(owner, id),
    {
        self.balances.get(owner, id)
    }

    /// Pure read of an allowance; never fails.
    pub fn allowance(&self, owner: Account, spender: Account, id: Uint256) -> (r: Uint256)
        ensures
            r == self.spec_allowance(owner, spender, id),
    {
        self.allowances.get(owner, spender, id)
    }

    /// Pure read of an operator flag; never fails.
    pub fn is_operator(&self, owner: Account, spender: Account) -> (r: bool)
        ensures
            r == self.spec_operator(owner, spender),
    {
        self.operators.get(owner, spender)
    }

    /// Sets an allowance over the caller's own balance: `caller` is the
    /// identity of the calling actor, threaded in explicitly by the
    /// entrypoint layer, never an arbitrary parameter.
    pub fn approve(&mut self, caller: Account, spender: Account, id: Uint256, value: Uint256) -> (r:
        Result<(), ERC6909Error>)
        requires
            old(self).wf(),
        ensures
            final(self).wf(),
            caller == Account::spec_zero() ==> *final(self) == *old(self) && r == Err::<
                (),
                ERC6909Error,
            >(ERC6909Error::ERC6909InvalidSender { sender: caller }),
            caller != Account::spec_zero() && spender == Account::spec_zero() ==> *final(self) == *old(
                self,
            ) && r == Err::<(), ERC6909Error>(ERC6909Error::ERC6909InvalidReciver { reciver: spender }),
            caller != Account::spec_zero() && spender != Account::spec_zero() ==> r is Ok
                && ERC6909::approval_set(*old(self), *final(self), caller, spender, id, value),
    {
        self._approve(caller, spender, id, value)
    }

    /// Grants or revokes blanket operator rights over the caller's tokens.
    pub fn set_operator(&mut self, caller: Account, spender: Account, approved: bool) -> (r: Result<
        (),
        ERC6909Error,
    >)
        requires
            old(self).wf(),
        ensures
            final(self).wf(),
            caller == Account::spec_zero() ==> *final(self) == *old(self) && r == Err::<
                (),
                ERC6909Error,
            >(ERC6909Error::ERC6909InvalidSender { sender: caller }),
            caller != Account::spec_zero() && spender == Account::spec_zero() ==> *final(self) == *old(
                self,
            ) && r == Err::<(), ERC6909Error>(ERC6909Error::ERC6909InvalidSender { sender: spender }),
            caller != Account::spec_zero() && spender != Account::spec_zero() ==> r is Ok
                && ERC6909::operator_set(*old(self), *final(self), caller, spender, approved),
    {
        self._set_operator(caller, spender, approved)
    }

    /// Whether `caller` may move `owner`'s tokens without consuming a
    /// per-id allowance: the caller is the owner, or holds blanket operator
    /// rights from the owner.
    pub open spec fn spec_authorized(self, owner: Account, caller: Account) -> bool {
        caller == owner || self.spec_operator(owner, caller)
    }

    /// A transfer on behalf of another owner: the authorized entrypoint
    /// that enforces allowance and operator rules before moving value.  The
    /// caller may move `from`'s tokens freely when it is `from` itself or an
    /// approved operator of `from`; otherwise the per-id allowance of
    /// `(from, caller, id)` must cover `value` and is consumed.  Every
    /// validation runs before any mutation, so a failure changes nothing:
    /// zero addresses are rejected first, then an insufficient balance, then
    /// an insufficient allowance.
    pub fn transfer_from(
        &mut self,
        caller: Account,
        from: Account,
        to: Account,
        id: Uint256,
        value: Uint256,
    ) -> (r: Result<(), ERC6909Error>)
        requires
            old(self).wf(),
            ERC6909::transfer_fits(*old(self), from, to, id, value),
        ensures
            final(self).wf(),
            from == Account::spec_zero() ==> *final(self) == *old(self) && r == Err::<
                (),
                ERC6909Error,
            >(ERC6909Error::ERC6909InvalidSender { sender: from }),
            from != Account::spec_zero() && to == Account::spec_zero() ==> *final(self) == *old(self)
                && r == Err::<(), ERC6909Error>(ERC6909Error::ERC6909InvalidReciver { reciver: to }),
            from != Account::spec_zero() && to != Account::spec_zero() ==> ((r is Ok) <==> (
            value.as_int() <= old(self).spec_balance(from, id).as_int() && (old(
                self,
            ).spec_authorized(from, caller) || value.as_int() <= old(self).spec_allowance(
                from,
                caller,
                id,
            ).as_int()))),
            from != Account::spec_zero() && to != Account::spec_zero() && value.as_int() > old(
                self,
            ).spec_balance(from, id).as_int() ==> *final(self) == *old(self) && r == Err::<
                (),
                ERC6909Error,
            >(ERC6909Error::ERC6909InsufficientBalance {
                sender: from,
                balance: old(self).spec_balance(from, id),
                needed: value,
                id,
            }),
            from != Account::spec_zero() && to != Account::spec_zero() && value.as_int() <= old(
                self,
            ).spec_balance(from, id).as_int() && !old(self).spec_authorized(from, caller)
                && value.as_int() > old(self).spec_allowance(from, caller, id).as_int()
                ==> *final(self) == *old(self) && r == Err::<(), ERC6909Error>(
                ERC6909Error::ERC6909InsufficientAllowance {
                    owner: from,
                    allowance: old(self).spec_allowance(from, caller, id),
                    needed: value,
                    id,
                },
            ),
            r is Ok && old(self).spec_authorized(from, caller) ==> ERC6909::moved(
                *old(self),
                *final(self),
                from,
                to,
                id,
                value,
            ),
            r is Ok && !old(self).spec_authorized(from, caller) ==> ERC6909::moved_with_allowance(
                *old(self),
                *final(self),
                caller,
                from,
                to,
                id,
                value,
            ),
    {
        if from.is_zero() {
            return Err(ERC6909Error::ERC6909InvalidSender { sender: from });
        }
        if to.is_zero() {
            return Err(ERC6909Error::ERC6909InvalidReciver { reciver: to });
        }
        let balance = self.balances.get(from, id);
        if balance.lt(&value) {
            return Err(ERC6909Error::ERC6909InsufficientBalance {
                sender: from,
                balance,
                needed: value,
                id,
            });
        }
        if !(caller == from || self.operators.get(from, caller)) {
            match self._spend_allowance(from, caller, id, value) {
                Ok(()) => {},
                Err(e) => {
                    return Err(e);
                },
            }
        }
        let ghost pre = *old(self);
        let ghost mid = *self;
        let r = self._update(from, to, id, value);
        proof {
            if !pre.spec_authorized(from, caller) {
                assert forall|o: Account, i: Uint256|
                    #[trigger] self.spec_balance(o, i).as_int() == pre.spec_balance(o, i).as_int()
                        - (if o == from && i == id { value.as_int() } else { 0 })
                        + (if o == to && i == id { value.as_int() } else { 0 }) by {
                    assert(mid.spec_balance(o, i) == pre.spec_balance(o, i));
                    assert(self.spec_balance(o, i).as_int() == mid.spec_balance(o, i).as_int() - (
                    if from != Account::spec_zero() && o == from && i == id {
                        value.as_int()
                    } else {
                        0
                    }) + (
                    if to != Account::spec_zero() && o == to && i == id {
                        value.as_int()
                    } else {
                        0
                    }));
                }
                assert forall|o: Account, s: Account, i: Uint256|
                    #[trigger] self.spec_allowance(o, s, i).as_int() == pre.spec_allowance(
                        o,
                        s,
                        i,
                    ).as_int() - (if o == from && s == caller && i == id {
                        value.as_int()
                    } else {
                        0
                    }) by {
                    assert(mid.spec_allowance(o, s, i).as_int() == pre.spec_allowance(o, s, i).as_int()
                        - (if o == from && s == caller && i == id {
                        value.as_int()
                    } else {
                        0
                    }));
                    assert(self.spec_allowance(o, s, i) == mid.spec_allowance(o, s, i));
                }
                assert forall|i: Uint256| #[trigger] self.total_minted(i) == pre.total_minted(i) by {
                    assert(self.total_minted(i) == mid.total_minted(i));
                }
                assert forall|i: Uint256| #[trigger] self.total_burned(i) == pre.total_burned(i) by {
                    assert(self.total_burned(i) == mid.total_burned(i));
                }
            }
        }
        r
    }
}

} // verus!
