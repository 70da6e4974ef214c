use vstd::prelude::*;
use crate::account::Account;

verus! {

/// One `(owner, spender) -> approved` cell of the operator mapping: whether
/// `spender` holds blanket authority over every token id owned by `owner`.
#[derive(Clone, Copy)]
pub struct OperatorEntry {
    pub owner: Account,
    pub spender: Account,
    pub approved: bool,
}

/// Whether an entry is the cell of the pair `(owner, spender)`.
pub open spec fn op_matches(e: OperatorEntry, owner: Account, spender: Account) -> bool {
    e.owner == owner && e.spender == spender
}

/// The operator flag of `(owner, spender)`: the first matching entry's flag,
/// or `false` when no entry matches.
pub open spec fn op_lookup(s: Seq<OperatorEntry>, owner: Account, spender: Account) -> bool
    decreases s.len(),
{
    if s.len() == 0 {
        false
    } else if op_matches(s[0], owner, spender) {
        s[0].approved
    } else {
        op_lookup(s.skip(1), owner, spender)
    }
}

/// No two entries name the same `(owner, spender)` pair.
pub open spec fn op_unique(s: Seq<OperatorEntry>) -> bool {
    forall|i: int, j: int|
        0 <= i < j < s.len() ==> !op_matches(#[trigger] s[i], #[trigger] s[j].owner, s[j].spender)
}

proof fn lemma_op_lookup_absent(s: Seq<OperatorEntry>, owner: Account, spender: Account)
    requires
        forall|k: int| 0 <= k < s.len() ==> !op_matches(#[trigger] s[k], owner, spender),
    ensures
        !op_lookup(s, owner, spender),
    decreases s.len(),
{
    if s.len() > 0 {
        assert(forall|k: int|
            0 <= k < s.skip(1).len() ==> !op_matches(#[trigger] s.skip(1)[k], owner, spender));
        lemma_op_lookup_absent(s.skip(1), owner, spender);
    }
}

proof fn lemma_op_lookup_first(s: Seq<OperatorEntry>, j: int, owner: Account, spender: Account)
    requires
        0 <= j < s.len(),
        op_matches(s[j], owner, spender),
        forall|k: int| 0 <= k < j ==> !op_matches(#[trigger] s[k], owner, spender),
    ensures
        op_lookup(s, owner, spender) == s[j].approved,
    decreases j,
{
    if j > 0 {
        assert(s.skip(1)[j - 1] == s[j]);
        assert(forall|k: int| 0 <= k < j - 1 ==> !op_matches(#[trigger] s.skip(1)[k], owner, spender));
        lemma_op_lookup_first(s.skip(1), j - 1, owner, spender);
    }
}

proof fn lemma_op_lookup_update(s: Seq<OperatorEntry>, j: int, e: OperatorEntry, owner: Account, spender: Account)
    requires
        0 <= j < s.len(),
        e.owner == s[j].owner,
        e.spender == s[j].spender,
        forall|k: int| 0 <= k < j ==> !op_matches(#[trigger] s[k], s[j].owner, s[j].spender),
    ensures
        op_lookup(s.update(j, e), owner, spender) == if op_matches(s[j], owner, spender) {
            e.approved
        } else {
            op_lookup(s, owner, spender)
        },
    decreases j,
{
    let su = s.update(j, e);
    if j == 0 {
        if !op_matches(e, owner, spender) {
            assert(su.skip(1) =~= s.skip(1));
        }
    } else {
        assert(su[0] == s[0]);
        if op_matches(s[0], owner, spender) {
            assert(!op_matches(s[j], owner, spender));
        } else {
            assert(su.skip(1) =~= s.skip(1).update(j - 1, e));
            assert(s.skip(1)[j - 1] == s[j]);
            assert(forall|k: int|
                0 <= k < j - 1 ==> !op_matches(
                    #[trigger] s.skip(1)[k],
                    s.skip(1)[j - 1].owner,
                    s.skip(1)[j - 1].spender,
                ));
            lemma_op_lookup_update(s.skip(1), j - 1, e, owner, spender);
        }
    }
}

proof fn lemma_op_lookup_push(s: Seq<OperatorEntry>, e: OperatorEntry, owner: Account, spender: Account)
    requires
        forall|k: int| 0 <= k < s.len() ==> !op_matches(#[trigger] s[k], e.owner, e.spender),
    ensures
        op_lookup(s.push(e), owner, spender) == if op_matches(e, owner, spender) {
            e.approved
        } else {
            op_lookup(s, owner, spender)
        },
    decreases s.len(),
{
    if s.len() == 0 {
        assert(s.push(e)[0] == e);
        if !op_matches(e, owner, spender) {
            assert(forall|k: int|
                0 <= k < s.push(e).skip(1).len()
                    ==> !op_matches(#[trigger] s.push(e).skip(1)[k], owner, spender));
            lemma_op_lookup_absent(s.push(e).skip(1), owner, spender);
        }
    } else {
        assert(s.push(e)[0] == s[0]);
        if op_matches(s[0], owner, spender) {
            assert(!op_matches(e, owner, spender));
        } else {
            assert(s.push(e).skip(1) =~= s.skip(1).push(e));
            assert(forall|k: int|
                0 <= k < s.skip(1).len() ==> !op_matches(#[trigger] s.skip(1)[k], e.owner, e.spender));
            lemma_op_lookup_push(s.skip(1), e, owner, spender);
        }
    }
}

proof fn lemma_op_unique_update(s: Seq<OperatorEntry>, j: int, e: OperatorEntry)
    requires
        op_unique(s),
        0 <= j < s.len(),
        e.owner == s[j].owner,
        e.spender == s[j].spender,
    ensures
        op_unique(s.update(j, e)),
{
    let su = s.update(j, e);
    assert forall|i: int, k: int|
        0 <= i < k < su.len() implies !op_matches(#[trigger] su[i], #[trigger] su[k].owner, su[k].spender) by {
        assert(!op_matches(s[i], s[k].owner, s[k].spender));
    }
}

proof fn lemma_op_unique_push(s: Seq<OperatorEntry>, e: OperatorEntry)
    requires
        op_unique(s),
        forall|k: int| 0 <= k < s.len() ==> !op_matches(#[trigger] s[k], e.owner, e.spender),
    ensures
        op_unique(s.push(e)),
{
    let su = s.push(e);
    assert forall|i: int, k: int|
        0 <= i < k < su.len() implies !op_matches(#[trigger] su[i], #[trigger] su[k].owner, su[k].spender) by {
        if k < s.len() {
            assert(!op_matches(s[i], s[k].owner, s[k].spender));
        } else {
            assert(!op_matches(s[i], e.owner, e.spender));
        }
    }
}

/// The per-owner, per-spender blanket-approval flags, held as a vector of
/// cells with pairwise distinct keys.
pub struct OperatorRegistry {
    pub entries: Vec<OperatorEntry>,
}

impl OperatorRegistry {
    /// Well-formedness: no `(owner, spender)` pair is held twice.
    pub open spec fn wf(self) -> bool {
        op_unique(self.entries@)
    }

    /// The operator flag of `(owner, spender)`; `false` for an unknown pair.
    pub open spec fn spec_get(self, owner: Account, spender: Account) -> bool {
        op_lookup(self.entries@, owner, spender)
    }

    pub fn new() -> (r: OperatorRegistry)
        ensures
            r.wf(),
            forall|o: Account, s: Account| !(#[trigger] r.spec_get(o, s)),
    {
        OperatorRegistry { entries: Vec::new() }
    }

    /// Index of the first cell for `(owner, spender)`, if one exists.
    fn find(&self, owner: Account, spender: Account) -> (r: Option<usize>)
        ensures
            match r {
                Some(j) => j < self.entries@.len() && op_matches(self.entries@[j as int], owner, spender)
                    && forall|k: int| 0 <= k < j ==> !op_matches(#[trigger] self.entries@[k], owner, spender),
                None => forall|k: int|
                    0 <= k < self.entries@.len() ==> !op_matches(#[trigger] self.entries@[k], owner, spender),
            },
    {
        let n = self.entries.len();
        let mut j: usize = 0;
        while j < n
            invariant
                n == self.entries@.len(),
                j <= n,
                forall|k: int| 0 <= k < j ==> !op_matches(#[trigger] self.entries@[k], owner, spender),
            decreases n - j,
        {
            let e = &self.entries[j];
            if e.owner == owner && e.spender == spender {
                return Some(j);
            }
            j += 1;
        }
        None
    }

    /// Pure read; never fails; returns `false` for an unknown pair.
    pub fn get(&self, owner: Account, spender: Account) -> (r: bool)
        ensures
            r == self.spec_get(owner, spender),
    {
        match self.find(owner, spender) {
            Some(j) => {
                proof {
                    lemma_op_lookup_first(self.entries@, j as int, owner, spender);
                }
                self.entries[j].approved
            },
            None => {
                proof {
                    lemma_op_lookup_absent(self.entries@, owner, spender);
                }
                false
            },
        }
    }

    /// Unconditional overwrite of the blanket-approval flag.
    pub fn set(&mut self, owner: Account, spender: Account, approved: bool)
        requires
            old(self).wf(),
        ensures
            final(self).wf(),
            forall|o: Account, s: Account|
                #[trigger] final(self).spec_get(o, s) == if o == owner && s == spender {
                    approved
                } else {
                    old(self).spec_get(o, s)
                },
    {
        let ghost s0 = self.entries@;
        match self.find(owner, spender) {
            Some(j) => {
                let ne = OperatorEntry { owner, spender, approved };
                proof {
                    lemma_op_unique_update(s0, j as int, ne);
                }
                self.entries[j] = ne;
                proof {
                    assert forall|o: Account, s: Account|
                        #[trigger] self.spec_get(o, s) == if o == owner && s == spender {
                            approved
                        } else {
                            op_lookup(s0, o, s)
                        } by {
                        lemma_op_lookup_update(s0, j as int, ne, o, s);
                    }
                }
            },
            None => {
                let ne = OperatorEntry { owner, spender, approved };
                proof {
                    lemma_op_unique_push(s0, ne);
                }
                self.entries.push(ne);
                proof {
                    assert forall|o: Account, s: Account|
                        #[trigger] self.spec_get(o, s) == if o == owner && s == spender {
                            approved
                        } else {
                            op_lookup(s0, o, s)
                        } by {
                        lemma_op_lookup_push(s0, ne, o, s);
                    }
                }
            },
        }
    }
}

} // verus!
