use vstd::prelude::*;
use crate::model::{SubscanOperation, Validator};
use crate::text::text_eq;

verus! {

/// The texts that a sequence of strings holds.
pub open spec fn text_set(v: Seq<String>) -> Set<Seq<char>> {
    Set::new(|k: Seq<char>| exists|i: int| 0 <= i < v.len() && (#[trigger] v[i])@ == k)
}

/// Extrinsic indices of a sequence of operations.
pub open spec fn index_keys(ops: Seq<SubscanOperation>) -> Set<Seq<char>> {
    Set::new(
        |k: Seq<char>| exists|i: int| 0 <= i < ops.len() && (#[trigger] ops[i]).extrinsic_index@ == k,
    )
}

/// The operations, in order, whose extrinsic index is not among `keys`.
pub open spec fn unseen(ops: Seq<SubscanOperation>, keys: Set<Seq<char>>) -> Seq<SubscanOperation>
    decreases ops.len(),
{
    if ops.len() == 0 {
        Seq::empty()
    } else {
        let rest = unseen(ops.drop_last(), keys);
        if keys.contains(ops.last().extrinsic_index@) {
            rest
        } else {
            rest.push(ops.last())
        }
    }
}

/// Operations already persisted, known by their extrinsic index.
pub struct OperationStore {
    persisted: Vec<String>,
}

impl OperationStore {
    pub closed spec fn keys(&self) -> Set<Seq<char>> {
        text_set(self.persisted@)
    }

    pub fn new() -> (r: Self)
        ensures
            r.keys() == Set::<Seq<char>>::empty(),
    {
        let r = OperationStore { persisted: Vec::new() };
        proof {
            assert(r.keys() =~= Set::<Seq<char>>::empty());
        }
        r
    }

    /// Whether an operation with this extrinsic index is persisted.
    pub fn contains(&self, extrinsic_index: &str) -> (r: bool)
        ensures
            r == self.keys().contains(extrinsic_index@),
    {
        let mut i: usize = 0;
        while i < self.persisted.len()
            invariant
                0 <= i <= self.persisted@.len(),
                forall|j: int| 0 <= j < i ==> (#[trigger] self.persisted@[j])@ != extrinsic_index@,
            decreases self.persisted@.len() - i,
        {
            if text_eq(self.persisted[i].as_str(), extrinsic_index) {
                return true;
            }
            i = i + 1;
        }
        false
    }

    /// The candidates, in order, that are not persisted yet.
    pub fn get_not_existing_operations(&self, candidates: Vec<SubscanOperation>) -> (r: Vec<
        SubscanOperation,
    >)
        ensures
            r@ == unseen(candidates@, self.keys()),
    {
        let mut r: Vec<SubscanOperation> = Vec::new();
        let mut rest = candidates;
        let ghost all = rest@;
        let mut i: usize = 0;
        let n = rest.len();
        while i < n
            invariant
                n == all.len(),
                0 <= i <= n,
                rest@ == all,
                r@ == unseen(all.subrange(0, i as int), self.keys()),
            decreases n - i,
        {
            let op = rest[i].duplicate();
            proof {
                assert(all.subrange(0, i + 1).drop_last() =~= all.subrange(0, i as int));
            }
            if !self.contains(op.extrinsic_index.as_str()) {
                r.push(op);
            }
            i = i + 1;
        }
        proof {
            assert(all.subrange(0, n as int) =~= all);
        }
        r
    }

    /// Records the operations as persisted.
    pub fn persist(&mut self, ops: &Vec<SubscanOperation>)
        ensures
            final(self).keys() == old(self).keys().union(index_keys(ops@)),
    {
        let mut i: usize = 0;
        let ghost start = self.persisted@;
        while i < ops.len()
            invariant
                0 <= i <= ops@.len(),
                self.persisted@ == start + ops@.subrange(0, i as int).map_values(
                    |o: SubscanOperation| o.extrinsic_index,
                ),
            decreases ops@.len() - i,
        {
            self.persisted.push(ops[i].extrinsic_index.clone());
            proof {
                assert(ops@.subrange(0, i + 1).map_values(|o: SubscanOperation| o.extrinsic_index)
                    =~= ops@.subrange(0, i as int).map_values(
                    |o: SubscanOperation| o.extrinsic_index,
                ).push(ops@[i as int].extrinsic_index));
            }
            i = i + 1;
        }
        proof {
            let added = ops@.map_values(|o: SubscanOperation| o.extrinsic_index);
            assert(ops@.subrange(0, ops@.len() as int) =~= ops@);
            assert forall|k: Seq<char>| #[trigger] text_set(self.persisted@).contains(k) <==> (
            text_set(start).contains(k) || index_keys(ops@).contains(k)) by {
                if text_set(self.persisted@).contains(k) {
                    let j = choose|j: int| 0 <= j < self.persisted@.len() && (#[trigger] self.persisted@[j])@ == k;
                    if j >= start.len() {
                        assert(ops@[j - start.len()].extrinsic_index@ == k);
                    } else {
                        assert(start[j]@ == k);
                    }
                }
                if text_set(start).contains(k) {
                    let j = choose|j: int| 0 <= j < start.len() && (#[trigger] start[j])@ == k;
                    assert(self.persisted@[j] == start[j]);
                }
                if index_keys(ops@).contains(k) {
                    let j = choose|j: int| 0 <= j < ops@.len() && (#[trigger] ops@[j]).extrinsic_index@ == k;
                    assert(self.persisted@[start.len() + j] == added[j]);
                }
            }
            assert(text_set(self.persisted@) =~= text_set(start).union(index_keys(ops@)));
        }
    }
}

proof fn lemma_unseen_all_seen(ops: Seq<SubscanOperation>, keys: Set<Seq<char>>, wider: Set<Seq<char>>)
    requires
        keys.subset_of(wider),
        index_keys(unseen(ops, keys)).subset_of(wider),
    ensures
        unseen(ops, wider).len() == 0,
    decreases ops.len(),
{
    if ops.len() > 0 {
        let front = ops.drop_last();
        let x = ops.last();
        assert forall|k: Seq<char>| #[trigger] index_keys(unseen(front, keys)).contains(k) implies wider.contains(k) by {
            let j = choose|j: int| 0 <= j < unseen(front, keys).len() && (#[trigger] unseen(front, keys)[j]).extrinsic_index@ == k;
            assert(unseen(ops, keys)[j] == unseen(front, keys)[j]);
            assert(index_keys(unseen(ops, keys)).contains(k));
        }
        lemma_unseen_all_seen(front, keys, wider);
        if !keys.contains(x.extrinsic_index@) {
            let u = unseen(ops, keys);
            assert(u[u.len() - 1] == x);
            assert(index_keys(u).contains(x.extrinsic_index@));
        }
    }
}

/// Deduplication is idempotent: once the operations that were not yet
/// persisted have been persisted, the same candidates hold nothing new.
pub proof fn lemma_dedup_idempotent(candidates: Seq<SubscanOperation>, keys: Set<Seq<char>>)
    ensures
        unseen(candidates, keys.union(index_keys(unseen(candidates, keys)))).len() == 0,
{
    lemma_unseen_all_seen(candidates, keys, keys.union(index_keys(unseen(candidates, keys))));
}

/// The validator that the log of associations holds for a nominator: the
/// latest association written for it.
pub open spec fn lookup(entries: Seq<Validator>, nominator: Seq<char>) -> Option<Seq<char>>
    decreases entries.len(),
{
    if entries.len() == 0 {
        None
    } else if entries.last().nominator@ == nominator {
        Some(entries.last().validator@)
    } else {
        lookup(entries.drop_last(), nominator)
    }
}

/// The nominators, in order, for which no association is held.
pub open spec fn missing(nominators: Seq<String>, entries: Seq<Validator>) -> Seq<String>
    decreases nominators.len(),
{
    if nominators.len() == 0 {
        Seq::empty()
    } else {
        let rest = missing(nominators.drop_last(), entries);
        if lookup(entries, nominators.last()@) is Some {
            rest
        } else {
            rest.push(nominators.last())
        }
    }
}

/// Nominator to validator associations; a later write for a nominator
/// replaces the earlier one.
pub struct ValidatorStore {
    entries: Vec<Validator>,
}

impl ValidatorStore {
    pub closed spec fn validator_of(&self, nominator: Seq<char>) -> Option<Seq<char>> {
        lookup(self.entries@, nominator)
    }

    pub closed spec fn log(&self) -> Seq<Validator> {
        self.entries@
    }

    pub fn new() -> (r: Self)
        ensures
            forall|n: Seq<char>| #[trigger] r.validator_of(n) is None,
            r.log().len() == 0,
    {
        ValidatorStore { entries: Vec::new() }
    }

    /// Writes each association in turn, so that the last one given for a
    /// nominator wins.
    pub fn import_or_update_validators(&mut self, validators: &Vec<Validator>)
        ensures
            forall|n: Seq<char>| #[trigger] final(self).validator_of(n) == (match lookup(validators@, n) {
                Some(v) => Some(v),
                None => old(self).validator_of(n),
            }),
    {
        let mut i: usize = 0;
        while i < validators.len()
            invariant
                0 <= i <= validators@.len(),
                forall|n: Seq<char>| #[trigger] lookup(self.entries@, n) == (match lookup(
                    validators@.subrange(0, i as int),
                    n,
                ) {
                    Some(v) => Some(v),
                    None => lookup(old(self).entries@, n),
                }),
            decreases validators@.len() - i,
        {
            let v = Validator {
                nominator: validators[i].nominator.clone(),
                validator: validators[i].validator.clone(),
            };
            let ghost before = self.entries@;
            self.entries.push(v);
            proof {
                assert(self.entries@.drop_last() =~= before);
                assert(validators@.subrange(0, i + 1).drop_last() =~= validators@.subrange(0, i as int));
                assert forall|n: Seq<char>| #[trigger] lookup(self.entries@, n) == (match lookup(
                    validators@.subrange(0, i + 1),
                    n,
                ) {
                    Some(v) => Some(v),
                    None => lookup(old(self).entries@, n),
                }) by {
                    assert(self.entries@.last() == v);
                    assert(validators@.subrange(0, i + 1).last() == validators@[i as int]);
                    assert(v.nominator@ == validators@[i as int].nominator@);
                    assert(v.validator@ == validators@[i as int].validator@);
                    assert(lookup(before, n) == (match lookup(validators@.subrange(0, i as int), n) {
                        Some(v) => Some(v),
                        None => lookup(old(self).entries@, n),
                    }));
                }
            }
            i = i + 1;
        }
        proof {
            assert(validators@.subrange(0, validators@.len() as int) =~= validators@);
        }
    }

    /// The association held for a nominator.
    pub fn get_validator_by_nominator(&self, nominator: &str) -> (r: Option<Validator>)
        ensures
            r is Some <==> self.validator_of(nominator@) is Some,
            r matches Some(v) ==> v.nominator@ == nominator@ && v.validator@
                == self.validator_of(nominator@)->0,
    {
        let mut i: usize = self.entries.len();
        proof {
            assert(self.entries@.subrange(0, i as int) =~= self.entries@);
        }
        while i > 0
            invariant
                0 <= i <= self.entries@.len(),
                lookup(self.entries@, nominator@) == lookup(
                    self.entries@.subrange(0, i as int),
                    nominator@,
                ),
            decreases i,
        {
            let ghost prefix = self.entries@.subrange(0, i as int);
            proof {
                assert(prefix.drop_last() =~= self.entries@.subrange(0, i - 1));
            }
            let e = &self.entries[i - 1];
            if text_eq(e.nominator.as_str(), nominator) {
                return Some(
                    Validator { nominator: e.nominator.clone(), validator: e.validator.clone() },
                );
            }
            i = i - 1;
        }
        None
    }

    /// The nominators, in order, for which no association is held.
    pub fn get_not_existing_nominators(&self, nominators: &Vec<String>) -> (r: Vec<String>)
        ensures
            r@ == missing(nominators@, self.log()),
    {
        let mut r: Vec<String> = Vec::new();
        let mut i: usize = 0;
        while i < nominators.len()
            invariant
                0 <= i <= nominators@.len(),
                r@ == missing(nominators@.subrange(0, i as int), self.entries@),
            decreases nominators@.len() - i,
        {
            proof {
                assert(nominators@.subrange(0, i + 1).drop_last() =~= nominators@.subrange(0, i as int));
            }
            let found = self.get_validator_by_nominator(nominators[i].as_str());
            if found.is_none() {
                r.push(nominators[i].clone());
            }
            i = i + 1;
        }
        proof {
            assert(nominators@.subrange(0, nominators@.len() as int) =~= nominators@);
        }
        r
    }
}

} // verus!
