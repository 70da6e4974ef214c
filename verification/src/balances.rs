use vstd::prelude::*;
use crate::account::Account;
use crate::uint256::Uint256;

verus! {

/// One `(owner, id) -> amount` cell of the balance mapping.
#[derive(Clone, Copy)]
pub struct BalanceEntry {
    pub owner: Account,
    pub id: Uint256,
    pub amount: Uint256,
}

/// Whether an entry is the cell of the pair `(owner, id)`.
pub open spec fn bal_matches(e: BalanceEntry, owner: Account, id: Uint256) -> bool {
    e.owner == owner && e.id == id
}

/// The amount held for `(owner, id)`: the first matching entry's amount, or
/// zero when no entry matches (absence is equivalent to a zero balance).
pub open spec fn bal_lookup(s: Seq<BalanceEntry>, owner: Account, id: Uint256) -> Uint256
    decreases s.len(),
{
    if s.len() == 0 {
        Uint256::spec_zero()
    } else if bal_matches(s[0], owner, id) {
        s[0].amount
    } else {
        bal_lookup(s.skip(1), owner, id)
    }
}

/// What one entry contributes to the total held of token `id`.
pub open spec fn bal_contrib(e: BalanceEntry, id: Uint256) -> int {
    if e.id == id {
        e.amount.as_int()
    } else {
        0
    }
}

/// The sum over all owners of the balances of token `id`.
pub open spec fn bal_sum(s: Seq<BalanceEntry>, id: Uint256) -> int
    decreases s.len(),
{
    if s.len() == 0 {
        0
    } else {
        bal_contrib(s[0], id) + bal_sum(s.skip(1), id)
    }
}

/// No two entries name the same `(owner, id)` pair.
pub open spec fn bal_unique(s: Seq<BalanceEntry>) -> bool {
    forall|i: int, j: int|
        0 <= i < j < s.len() ==> !bal_matches(#[trigger] s[i], #[trigger] s[j].owner, s[j].id)
}

proof fn lemma_bal_lookup_absent(s: Seq<BalanceEntry>, owner: Account, id: Uint256)
    requires
        forall|k: int| 0 <= k < s.len() ==> !bal_matches(#[trigger] s[k], owner, id),
    ensures
        bal_lookup(s, owner, id) == Uint256::spec_zero(),
    decreases s.len(),
{
    if s.len() > 0 {
        assert(forall|k: int|
            0 <= k < s.skip(1).len() ==> !bal_matches(#[trigger] s.skip(1)[k], owner, id));
        lemma_bal_lookup_absent(s.skip(1), owner, id);
    }
}

proof fn lemma_bal_lookup_first(s: Seq<BalanceEntry>, j: int, owner: Account, id: Uint256)
    requires
        0 <= j < s.len(),
        bal_matches(s[j], owner, id),
        forall|k: int| 0 <= k < j ==> !bal_matches(#[trigger] s[k], owner, id),
    ensures
        bal_lookup(s, owner, id) == s[j].amount,
    decreases j,
{
    if j > 0 {
        assert(s.skip(1)[j - 1] == s[j]);
        assert(forall|k: int| 0 <= k < j - 1 ==> !bal_matches(#[trigger] s.skip(1)[k], owner, id));
        lemma_bal_lookup_first(s.skip(1), j - 1, owner, id);
    }
}

proof fn lemma_bal_lookup_update(s: Seq<BalanceEntry>, j: int, e: BalanceEntry, owner: Account, id: Uint256)
    requires
        0 <= j < s.len(),
        e.owner == s[j].owner,
        e.id == s[j].id,
        forall|k: int| 0 <= k < j ==> !bal_matches(#[trigger] s[k], s[j].owner, s[j].id),
    ensures
        bal_lookup(s.update(j, e), owner, id) == if bal_matches(s[j], owner, id) {
            e.amount
        } else {
            bal_lookup(s, owner, id)
        },
    decreases j,
{
    let su = s.update(j, e);
    if j == 0 {
        if !bal_matches(e, owner, id) {
            assert(su.skip(1) =~= s.skip(1));
        }
    } else {
        assert(su[0] == s[0]);
        if bal_matches(s[0], owner, id) {
            assert(!bal_matches(s[j], owner, id));
        } else {
            assert(su.skip(1) =~= s.skip(1).update(j - 1, e));
            assert(s.skip(1)[j - 1] == s[j]);
            assert(forall|k: int|
                0 <= k < j - 1 ==> !bal_matches(
                    #[trigger] s.skip(1)[k],
                    s.skip(1)[j - 1].owner,
                    s.skip(1)[j - 1].id,
                ));
            lemma_bal_lookup_update(s.skip(1), j - 1, e, owner, id);
        }
    }
}

proof fn lemma_bal_sum_update(s: Seq<BalanceEntry>, j: int, e: BalanceEntry, id: Uint256)
    requires
        0 <= j < s.len(),
    ensures
        bal_sum(s.update(j, e), id) == bal_sum(s, id) - bal_contrib(s[j], id) + bal_contrib(e, id),
    decreases j,
{
    let su = s.update(j, e);
    if j == 0 {
        assert(su.skip(1) =~= s.skip(1));
    } else {
        assert(su[0] == s[0]);
        assert(su.skip(1) =~= s.skip(1).update(j - 1, e));
        assert(s.skip(1)[j - 1] == s[j]);
        lemma_bal_sum_update(s.skip(1), j - 1, e, id);
    }
}

proof fn lemma_bal_lookup_push(s: Seq<BalanceEntry>, e: BalanceEntry, owner: Account, id: Uint256)
    requires
        forall|k: int| 0 <= k < s.len() ==> !bal_matches(#[trigger] s[k], e.owner, e.id),
    ensures
        bal_lookup(s.push(e), owner, id) == if bal_matches(e, owner, id) {
            e.amount
        } else {
            bal_lookup(s, owner, id)
        },
    decreases s.len(),
{
    if s.len() == 0 {
        assert(s.push(e)[0] == e);
        if !bal_matches(e, owner, id) {
            assert(forall|k: int|
                0 <= k < s.push(e).skip(1).len()
                    ==> !bal_matches(#[trigger] s.push(e).skip(1)[k], owner, id));
            lemma_bal_lookup_absent(s.push(e).skip(1), owner, id);
        }
    } else {
        assert(s.push(e)[0] == s[0]);
        if bal_matches(s[0], owner, id) {
            assert(!bal_matches(e, owner, id));
        } else {
            assert(s.push(e).skip(1) =~= s.skip(1).push(e));
            assert(forall|k: int|
                0 <= k < s.skip(1).len() ==> !bal_matches(#[trigger] s.skip(1)[k], e.owner, e.id));
            lemma_bal_lookup_push(s.skip(1), e, owner, id);
        }
    }
}

proof fn lemma_bal_sum_push(s: Seq<BalanceEntry>, e: BalanceEntry, id: Uint256)
    ensures
        bal_sum(s.push(e), id) == bal_sum(s, id) + bal_contrib(e, id),
    decreases s.len(),
{
    if s.len() == 0 {
        assert(s.push(e)[0] == e);
        assert(s.push(e).skip(1) =~= Seq::<BalanceEntry>::empty());
        assert(bal_sum(Seq::<BalanceEntry>::empty(), id) == 0);
    } else {
        assert(s.push(e)[0] == s[0]);
        assert(s.push(e).skip(1) =~= s.skip(1).push(e));
        lemma_bal_sum_push(s.skip(1), e, id);
    }
}

proof fn lemma_bal_unique_update(s: Seq<BalanceEntry>, j: int, e: BalanceEntry)
    requires
        bal_unique(s),
        0 <= j < s.len(),
        e.owner == s[j].owner,
        e.id == s[j].id,
    ensures
        bal_unique(s.update(j, e)),
{
    let su = s.update(j, e);
    assert forall|i: int, k: int|
        0 <= i < k < su.len() implies !bal_matches(#[trigger] su[i], #[trigger] su[k].owner, su[k].id) by {
        assert(!bal_matches(s[i], s[k].owner, s[k].id));
    }
}

proof fn lemma_bal_unique_push(s: Seq<BalanceEntry>, e: BalanceEntry)
    requires
        bal_unique(s),
        forall|k: int| 0 <= k < s.len() ==> !bal_matches(#[trigger] s[k], e.owner, e.id),
    ensures
        bal_unique(s.push(e)),
{
    let su = s.push(e);
    assert forall|i: int, k: int|
        0 <= i < k < su.len() implies !bal_matches(#[trigger] su[i], #[trigger] su[k].owner, su[k].id) by {
        if k < s.len() {
            assert(!bal_matches(s[i], s[k].owner, s[k].id));
        } else {
            assert(!bal_matches(s[i], e.owner, e.id));
        }
    }
}

/// The per-account, per-token-id balance mapping, held as a vector of cells
/// with pairwise distinct keys.  Mutated only through `credit` and `debit`.
pub struct BalanceLedger {
    pub entries: Vec<BalanceEntry>,
}

impl BalanceLedger {
    /// Well-formedness: no `(owner, id)` pair is held twice.
    pub open spec fn wf(self) -> bool {
        bal_unique(self.entries@)
    }

    /// The balance of `(owner, id)`; zero for an unknown pair.
    pub open spec fn spec_get(self, owner: Account, id: Uint256) -> Uint256 {
        bal_lookup(self.entries@, owner, id)
    }

    /// The sum over all owners of the balances of token `id`.
    pub open spec fn spec_sum(self, id: Uint256) -> int {
        bal_sum(self.entries@, id)
    }

    pub fn new() -> (r: BalanceLedger)
        ensures
            r.wf(),
            forall|o: Account, i: Uint256| #[trigger] r.spec_get(o, i) == Uint256::spec_zero(),
            forall|i: Uint256| #[trigger] r.spec_sum(i) == 0,
    {
        BalanceLedger { entries: Vec::new() }
    }

    /// Index of the first cell for `(owner, id)`, if one exists.
    fn find(&self, owner: Account, id: Uint256) -> (r: Option<usize>)
        ensures
            match r {
                Some(j) => j < self.entries@.len() && bal_matches(self.entries@[j as int], owner, id)
                    && forall|k: int| 0 <= k < j ==> !bal_matches(#[trigger] self.entries@[k], owner, id),
                None => forall|k: int|
                    0 <= k < self.entries@.len() ==> !bal_matches(#[trigger] self.entries@[k], owner, id),
            },
    {
        let n = self.entries.len();
        let mut j: usize = 0;
        while j < n
            invariant
                n == self.entries@.len(),
                j <= n,
                forall|k: int| 0 <= k < j ==> !bal_matches(#[trigger] self.entries@[k], owner, id),
            decreases n - j,
        {
            let e = &self.entries[j];
            if e.owner == owner && e.id == id {
                return Some(j);
            }
            j += 1;
        }
        None
    }

    /// Pure read; never fails; returns zero for an unknown pair.
    pub fn get(&self, owner: Account, id: Uint256) -> (r: Uint256)
        ensures
            r == self.spec_get(owner, id),
    {
        match self.find(owner, id) {
            Some(j) => {
                proof {
                    lemma_bal_lookup_first(self.entries@, j as int, owner, id);
                }
                self.entries[j].amount
            },
            None => {
                proof {
                    lemma_bal_lookup_absent(self.entries@, owner, id);
                }
                Uint256::zero()
            },
        }
    }

    /// Adds `amount` to the balance of `(owner, id)`.  The sum must fit the
    /// 256-bit domain; within it, a credit has no failure mode.
    pub fn credit(&mut self, owner: Account, id: Uint256, amount: Uint256)
        requires
            old(self).wf(),
            old(self).spec_get(owner, id).as_int() + amount.as_int() < Uint256::modulus(),
        ensures
            final(self).wf(),
            forall|o: Account, i: Uint256|
                #[trigger] final(self).spec_get(o, i).as_int() == old(self).spec_get(o, i).as_int()
                    + (if o == owner && i == id { amount.as_int() } else { 0 }),
            forall|i: Uint256|
                #[trigger] final(self).spec_sum(i) == old(self).spec_sum(i)
                    + (if i == id { amount.as_int() } else { 0 }),
    {
        let ghost s0 = self.entries@;
        match self.find(owner, id) {
            Some(j) => {
                proof {
                    lemma_bal_lookup_first(s0, j as int, owner, id);
                }
                let e = self.entries[j];
                let ne = BalanceEntry { owner, id, amount: e.amount.add(amount) };
                proof {
                    lemma_bal_unique_update(s0, j as int, ne);
                }
                self.entries[j] = ne;
                proof {
                    assert forall|o: Account, i: Uint256|
                        #[trigger] self.spec_get(o, i).as_int() == bal_lookup(s0, o, i).as_int()
                            + (if o == owner && i == id { amount.as_int() } else { 0 }) by {
                        lemma_bal_lookup_update(s0, j as int, ne, o, i);
                    }
                    assert forall|i: Uint256|
                        #[trigger] self.spec_sum(i) == bal_sum(s0, i)
                            + (if i == id { amount.as_int() } else { 0 }) by {
                        lemma_bal_sum_update(s0, j as int, ne, i);
                    }
                }
            },
            None => {
                proof {
                    lemma_bal_lookup_absent(s0, owner, id);
                }
                let ne = BalanceEntry { owner, id, amount };
                proof {
                    lemma_bal_unique_push(s0, ne);
                }
                self.entries.push(ne);
                proof {
                    assert forall|o: Account, i: Uint256|
                        #[trigger] self.spec_get(o, i).as_int() == bal_lookup(s0, o, i).as_int()
                            + (if o == owner && i == id { amount.as_int() } else { 0 }) by {
                        lemma_bal_lookup_push(s0, ne, o, i);
                        if o == owner && i == id {
                            lemma_bal_lookup_absent(s0, o, i);
                        }
                    }
                    assert forall|i: Uint256|
                        #[trigger] self.spec_sum(i) == bal_sum(s0, i)
                            + (if i == id { amount.as_int() } else { 0 }) by {
                        lemma_bal_sum_push(s0, ne, i);
                    }
                }
            },
        }
    }

    /// Subtracts `amount` from the balance of `(owner, id)`.  The caller has
    /// already established that the balance suffices; the engine rejects a
    /// debit beyond the balance before ever reaching this point.
    pub fn debit(&mut self, owner: Account, id: Uint256, amount: Uint256)
        requires
            old(self).wf(),
            amount.as_int() <= old(self).spec_get(owner, id).as_int(),
        ensures
            final(self).wf(),
            forall|o: Account, i: Uint256|
                #[trigger] final(self).spec_get(o, i).as_int() == old(self).spec_get(o, i).as_int()
                    - (if o == owner && i == id { amount.as_int() } else { 0 }),
            forall|i: Uint256|
                #[trigger] final(self).spec_sum(i) == old(self).spec_sum(i)
                    - (if i == id { amount.as_int() } else { 0 }),
    {
        let ghost s0 = self.entries@;
        match self.find(owner, id) {
            Some(j) => {
                proof {
                    lemma_bal_lookup_first(s0, j as int, owner, id);
                }
                let e = self.entries[j];
                let ne = BalanceEntry { owner, id, amount: e.amount.sub(amount) };
                proof {
                    lemma_bal_unique_update(s0, j as int, ne);
                }
                self.entries[j] = ne;
                proof {
                    assert forall|o: Account, i: Uint256|
                        #[trigger] self.spec_get(o, i).as_int() == bal_lookup(s0, o, i).as_int()
                            - (if o == owner && i == id { amount.as_int() } else { 0 }) by {
                        lemma_bal_lookup_update(s0, j as int, ne, o, i);
                    }
                    assert forall|i: Uint256|
                        #[trigger] self.spec_sum(i) == bal_sum(s0, i)
                            - (if i == id { amount.as_int() } else { 0 }) by {
                        lemma_bal_sum_update(s0, j as int, ne, i);
                    }
                }
            },
            None => {
                // An absent pair holds zero, so the permitted debit is zero
                // and the mapping is already in its final state.
                proof {
                    lemma_bal_lookup_absent(s0, owner, id);
                }
            },
        }
    }
}

} // verus!
