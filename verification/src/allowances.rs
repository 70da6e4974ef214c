use vstd::prelude::*;
use crate::account::Account;
use crate::errors::ERC6909Error;
use crate::uint256::Uint256;

verus! {

/// One `(owner, spender, id) -> amount` cell of the allowance mapping: how
/// much of `owner`'s balance of `id` the `spender` may move.
#[derive(Clone, Copy)]
pub struct AllowanceEntry {
    pub owner: Account,
    pub spender: Account,
    pub id: Uint256,
    pub amount: Uint256,
}

/// Whether an entry is the cell of the triple `(owner, spender, id)`.
pub open spec fn alw_matches(e: AllowanceEntry, owner: Account, spender: Account, id: Uint256) -> bool {
    e.owner == owner && e.spender == spender && e.id == id
}

/// The allowance of `(owner, spender, id)`: the first matching entry's
/// amount, or zero when no entry matches.
pub open spec fn alw_lookup(s: Seq<AllowanceEntry>, owner: Account, spender: Account, id: Uint256) -> Uint256
    decreases s.len(),
{
    if s.len() == 0 {
        Uint256::spec_zero()
    } else if alw_matches(s[0], owner, spender, id) {
        s[0].amount
    } else {
        alw_lookup(s.skip(1), owner, spender, id)
    }
}

/// No two entries name the same `(owner, spender, id)` triple.
pub open spec fn alw_unique(s: Seq<AllowanceEntry>) -> bool {
    forall|i: int, j: int|
        0 <= i < j < s.len() ==> !alw_matches(#[trigger] s[i], #[trigger] s[j].owner, s[j].spender, s[j].id)
}

proof fn lemma_alw_lookup_absent(s: Seq<AllowanceEntry>, owner: Account, spender: Account, id: Uint256)
    requires
        forall|k: int| 0 <= k < s.len() ==> !alw_matches(#[trigger] s[k], owner, spender, id),
    ensures
        alw_lookup(s, owner, spender, id) == Uint256::spec_zero(),
    decreases s.len(),
{
    if s.len() > 0 {
        assert(forall|k: int|
            0 <= k < s.skip(1).len() ==> !alw_matches(#[trigger] s.skip(1)[k], owner, spender, id));
        lemma_alw_lookup_absent(s.skip(1), owner, spender, id);
    }
}

proof fn lemma_alw_lookup_first(s: Seq<AllowanceEntry>, j: int, owner: Account, spender: Account, id: Uint256)
    requires
        0 <= j < s.len(),
        alw_matches(s[j], owner, spender, id),
        forall|k: int| 0 <= k < j ==> !alw_matches(#[trigger] s[k], owner, spender, id),
    ensures
        alw_lookup(s, owner, spender, id) == s[j].amount,
    decreases j,
{
    if j > 0 {
        assert(s.skip(1)[j - 1] == s[j]);
        assert(forall|k: int|
            0 <= k < j - 1 ==> !alw_matches(#[trigger] s.skip(1)[k], owner, spender, id));
        lemma_alw_lookup_first(s.skip(1), j - 1, owner, spender, id);
    }
}

proof fn lemma_alw_lookup_update(
    s: Seq<AllowanceEntry>,
    j: int,
    e: AllowanceEntry,
    owner: Account,
    spender: Account,
    id: Uint256,
)
    requires
        0 <= j < s.len(),
        e.owner == s[j].owner,
        e.spender == s[j].spender,
        e.id == s[j].id,
        forall|k: int| 0 <= k < j ==> !alw_matches(#[trigger] s[k], s[j].owner, s[j].spender, s[j].id),
    ensures
        alw_lookup(s.update(j, e), owner, spender, id) == if alw_matches(s[j], owner, spender, id) {
            e.amount
        } else {
            alw_lookup(s, owner, spender, id)
        },
    decreases j,
{
    let su = s.update(j, e);
    if j == 0 {
        if !alw_matches(e, owner, spender, id) {
            assert(su.skip(1) =~= s.skip(1));
        }
    } else {
        assert(su[0] == s[0]);
        if alw_matches(s[0], owner, spender, id) {
            assert(!alw_matches(s[j], owner, spender, id));
        } else {
            assert(su.skip(1) =~= s.skip(1).update(j - 1, e));
            assert(s.skip(1)[j - 1] == s[j]);
            assert(forall|k: int|
                0 <= k < j - 1 ==> !alw_matches(
                    #[trigger] s.skip(1)[k],
                    s.skip(1)[j - 1].owner,
                    s.skip(1)[j - 1].spender,
                    s.skip(1)[j - 1].id,
                ));
            lemma_alw_lookup_update(s.skip(1), j - 1, e, owner, spender, id);
        }
    }
}

proof fn lemma_alw_lookup_push(
    s: Seq<AllowanceEntry>,
    e: AllowanceEntry,
    owner: Account,
    spender: Account,
    id: Uint256,
)
    requires
        forall|k: int| 0 <= k < s.len() ==> !alw_matches(#[trigger] s[k], e.owner, e.spender, e.id),
    ensures
        alw_lookup(s.push(e), owner, spender, id) == if alw_matches(e, owner, spender, id) {
            e.amount
        } else {
            alw_lookup(s, owner, spender, id)
        },
    decreases s.len(),
{
    if s.len() == 0 {
        assert(s.push(e)[0] == e);
        if !alw_matches(e, owner, spender, id) {
            assert(forall|k: int|
                0 <= k < s.push(e).skip(1).len()
                    ==> !alw_matches(#[trigger] s.push(e).skip(1)[k], owner, spender, id));
            lemma_alw_lookup_absent(s.push(e).skip(1), owner, spender, id);
        }
    } else {
        assert(s.push(e)[0] == s[0]);
        if alw_matches(s[0], owner, spender, id) {
            assert(!alw_matches(e, owner, spender, id));
        } else {
            assert(s.push(e).skip(1) =~= s.skip(1).push(e));
            assert(forall|k: int|
                0 <= k < s.skip(1).len()
                    ==> !alw_matches(#[trigger] s.skip(1)[k], e.owner, e.spender, e.id));
            lemma_alw_lookup_push(s.skip(1), e, owner, spender, id);
        }
    }
}

proof fn lemma_alw_unique_update(s: Seq<AllowanceEntry>, j: int, e: AllowanceEntry)
    requires
        alw_unique(s),
        0 <= j < s.len(),
        e.owner == s[j].owner,
        e.spender == s[j].spender,
        e.id == s[j].id,
    ensures
        alw_unique(s.update(j, e)),
{
    let su = s.update(j, e);
    assert forall|i: int, k: int|
        0 <= i < k < su.len() implies !alw_matches(
        #[trigger] su[i],
        #[trigger] su[k].owner,
        su[k].spender,
        su[k].id,
    ) by {
        assert(!alw_matches(s[i], s[k].owner, s[k].spender, s[k].id));
    }
}

proof fn lemma_alw_unique_push(s: Seq<AllowanceEntry>, e: AllowanceEntry)
    requires
        alw_unique(s),
        forall|k: int| 0 <= k < s.len() ==> !alw_matches(#[trigger] s[k], e.owner, e.spender, e.id),
    ensures
        alw_unique(s.push(e)),
{
    let su = s.push(e);
    assert forall|i: int, k: int|
        0 <= i < k < su.len() implies !alw_matches(
        #[trigger] su[i],
        #[trigger] su[k].owner,
        su[k].spender,
        su[k].id,
    ) by {
        if k < s.len() {
            assert(!alw_matches(s[i], s[k].owner, s[k].spender, s[k].id));
        } else {
            assert(!alw_matches(s[i], e.owner, e.spender, e.id));
        }
    }
}

/// The per-owner, per-spender, per-token-id authorized amounts, held as a
/// vector of cells with pairwise distinct keys.  An allowance is created or
/// overwritten by `set` and decremented by `consume`; a transfer never
/// creates one implicitly.
pub struct AllowanceRegistry {
    pub entries: Vec<AllowanceEntry>,
}

impl AllowanceRegistry {
    /// Well-formedness: no `(owner, spender, id)` triple is held twice.
    pub open spec fn wf(self) -> bool {
        alw_unique(self.entries@)
    }

    /// The allowance of `(owner, spender, id)`; zero for an unknown triple.
    pub open spec fn spec_get(self, owner: Account, spender: Account, id: Uint256) -> Uint256 {
        alw_lookup(self.entries@, owner, spender, id)
    }

    pub fn new() -> (r: AllowanceRegistry)
        ensures
            r.wf(),
            forall|o: Account, s: Account, i: Uint256|
                #[trigger] r.spec_get(o, s, i) == Uint256::spec_zero(),
    {
        AllowanceRegistry { entries: Vec::new() }
    }

    /// Index of the first cell for `(owner, spender, id)`, if one exists.
    fn find(&self, owner: Account, spender: Account, id: Uint256) -> (r: Option<usize>)
        ensures
            match r {
                Some(j) => j < self.entries@.len()
                    && alw_matches(self.entries@[j as int], owner, spender, id)
                    && forall|k: int|
                        0 <= k < j ==> !alw_matches(#[trigger] self.entries@[k], owner, spender, id),
                None => forall|k: int|
                    0 <= k < self.entries@.len()
                        ==> !alw_matches(#[trigger] self.entries@[k], owner, spender, id),
            },
    {
        let n = self.entries.len();
        let mut j: usize = 0;
        while j < n
            invariant
                n == self.entries@.len(),
                j <= n,
                forall|k: int| 0 <= k < j ==> !alw_matches(#[trigger] self.entries@[k], owner, spender, id),
            decreases n - j,
        {
            let e = &self.entries[j];
            if e.owner == owner && e.spender == spender && e.id == id {
                return Some(j);
            }
            j += 1;
        }
        None
    }

    /// Pure read; never fails; returns zero for an unknown triple.
    pub fn get(&self, owner: Account, spender: Account, id: Uint256) -> (r: Uint256)
        ensures
            r == self.spec_get(owner, spender, id),
    {
        match self.find(owner, spender, id) {
            Some(j) => {
                proof {
                    lemma_alw_lookup_first(self.entries@, j as int, owner, spender, id);
                }
                self.entries[j].amount
            },
            None => {
                proof {
                    lemma_alw_lookup_absent(self.entries@, owner, spender, id);
                }
                Uint256::zero()
            },
        }
    }

    /// Unconditional overwrite: approving again replaces the previous
    /// amount, it never adds to it.
    pub fn set(&mut self, owner: Account, spender: Account, id: Uint256, amount: Uint256)
        requires
            old(self).wf(),
        ensures
            final(self).wf(),
            forall|o: Account, s: Account, i: Uint256|
                #[trigger] final(self).spec_get(o, s, i) == if o == owner && s == spender && i == id {
                    amount
                } else {
                    old(self).spec_get(o, s, i)
                },
    {
        let ghost s0 = self.entries@;
        match self.find(owner, spender, id) {
            Some(j) => {
                let ne = AllowanceEntry { owner, spender, id, amount };
                proof {
                    lemma_alw_unique_update(s0, j as int, ne);
                }
                self.entries[j] = ne;
                proof {
                    assert forall|o: Account, s: Account, i: Uint256|
                        #[trigger] self.spec_get(o, s, i) == if o == owner && s == spender && i == id {
                            amount
                        } else {
                            alw_lookup(s0, o, s, i)
                        } by {
                        lemma_alw_lookup_update(s0, j as int, ne, o, s, i);
                    }
                }
            },
            None => {
                let ne = AllowanceEntry { owner, spender, id, amount };
                proof {
                    lemma_alw_unique_push(s0, ne);
                }
                self.entries.push(ne);
                proof {
                    assert forall|o: Account, s: Account, i: Uint256|
                        #[trigger] self.spec_get(o, s, i) == if o == owner && s == spender && i == id {
                            amount
                        } else {
                            alw_lookup(s0, o, s, i)
                        } by {
                        lemma_alw_lookup_push(s0, ne, o, s, i);
                    }
                }
            },
        }
    }

    /// Decrements the allowance of `(owner, spender, id)` by `amount`,
    /// checking it against the request first: a consumption beyond the
    /// remaining allowance fails with `ERC6909InsufficientAllowance` and
    /// changes nothing, so an allowance can never go negative.
    pub fn consume(&mut self, owner: Account, spender: Account, id: Uint256, amount: Uint256) -> (r: Result<
        (),
        ERC6909Error,
    >)
        requires
            old(self).wf(),
        ensures
            final(self).wf(),
            r is Ok <==> amount.as_int() <= old(self).spec_get(owner, spender, id).as_int(),
            r is Ok ==> forall|o: Account, s: Account, i: Uint256|
                #[trigger] final(self).spec_get(o, s, i).as_int() == old(self).spec_get(o, s, i).as_int()
                    - (if o == owner && s == spender && i == id { amount.as_int() } else { 0 }),
            r is Err ==> *final(self) == *old(self) && r == Err::<(), ERC6909Error>(
                ERC6909Error::ERC6909InsufficientAllowance {
                    owner,
                    allowance: old(self).spec_get(owner, spender, id),
                    needed: amount,
                    id,
                },
            ),
    {
        let current = self.get(owner, spender, id);
        if current.lt(&amount) {
            return Err(ERC6909Error::ERC6909InsufficientAllowance {
                owner,
                allowance: current,
                needed: amount,
                id,
            });
        }
        self.set(owner, spender, id, current.sub(amount));
        Ok(())
    }
}

} // verus!
