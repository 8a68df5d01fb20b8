use vstd::prelude::*;
use itertools::Itertools;
use crate::codec::UNITS_PER_TOKEN;
use crate::identity::{compute_identity, identity_of, lemma_identity_injective};
use crate::model::{unresolved_wallet, SubscanOperation, Validator};
use crate::store::{text_set, ValidatorStore};
use crate::text::text_eq;

verus! {

/// The operations of the listings that succeeded, in listing order.
pub open spec fn successes(results: Seq<Option<Vec<SubscanOperation>>>) -> Seq<SubscanOperation>
    decreases results.len(),
{
    if results.len() == 0 {
        Seq::empty()
    } else {
        let rest = successes(results.drop_last());
        match results.last() {
            Some(v) => rest + v@,
            None => rest,
        }
    }
}

/// Gathers the operations of the listings that succeeded; failed listings
/// are dropped.
pub fn collect_successes(results: &Vec<Option<Vec<SubscanOperation>>>) -> (r: Vec<
    SubscanOperation,
>)
    ensures
        r@ == successes(results@),
{
    let mut r: Vec<SubscanOperation> = Vec::new();
    let mut i: usize = 0;
    while i < results.len()
        invariant
            0 <= i <= results@.len(),
            r@ == successes(results@.subrange(0, i as int)),
        decreases results@.len() - i,
    {
        proof {
            assert(results@.subrange(0, i + 1).drop_last() =~= results@.subrange(0, i as int));
        }
        match &results[i] {
            Some(v) => {
                let ghost start = r@;
                let mut j: usize = 0;
                while j < v.len()
                    invariant
                        0 <= j <= v@.len(),
                        r@ == start + v@.subrange(0, j as int),
                    decreases v@.len() - j,
                {
                    r.push(v[j].duplicate());
                    proof {
                        assert(start + v@.subrange(0, j + 1) =~= (start + v@.subrange(0, j as int)).push(v@[j as int]));
                    }
                    j = j + 1;
                }
                proof {
                    assert(v@.subrange(0, v@.len() as int) =~= v@);
                }
            },
            None => {},
        }
        i = i + 1;
    }
    proof {
        assert(results@.subrange(0, results@.len() as int) =~= results@);
    }
    r
}

/// Nominator and validator of each operation with a resolved destination,
/// in order.
pub open spec fn associations(ops: Seq<SubscanOperation>) -> Seq<(Seq<char>, Seq<char>)>
    decreases ops.len(),
{
    if ops.len() == 0 {
        Seq::empty()
    } else {
        let rest = associations(ops.drop_last());
        if ops.last().to_wallet@ == unresolved_wallet() {
            rest
        } else {
            rest.push((ops.last().from_wallet@, ops.last().to_wallet@))
        }
    }
}

pub open spec fn association_view(v: Validator) -> (Seq<char>, Seq<char>) {
    (v.nominator@, v.validator@)
}

/// Derives nominator to validator associations from the operations whose
/// destination is resolved.
pub fn convert_operations_to_validators(source: Vec<SubscanOperation>) -> (r: Vec<Validator>)
    ensures
        r@.map_values(|v: Validator| association_view(v)) == associations(source@),
{
    let mut r: Vec<Validator> = Vec::new();
    let none = crate::model::unresolved_wallet_text();
    let mut i: usize = 0;
    while i < source.len()
        invariant
            0 <= i <= source@.len(),
            none@ == unresolved_wallet(),
            r@.map_values(|v: Validator| association_view(v)) == associations(
                source@.subrange(0, i as int),
            ),
        decreases source@.len() - i,
    {
        proof {
            assert(source@.subrange(0, i + 1).drop_last() =~= source@.subrange(0, i as int));
        }
        let op = &source[i];
        if !text_eq(op.to_wallet.as_str(), none.as_str()) {
            let ghost before = r@;
            r.push(Validator { nominator: op.from_wallet.clone(), validator: op.to_wallet.clone() });
            proof {
                assert(r@.map_values(|v: Validator| association_view(v)) =~= before.map_values(
                    |v: Validator| association_view(v),
                ).push((op.from_wallet@, op.to_wallet@)));
            }
        }
        i = i + 1;
    }
    proof {
        assert(source@.subrange(0, source@.len() as int) =~= source@);
    }
    r
}

/// Value in millionths of a dollar of `quantity` smallest units at `price`
/// millionths of a dollar per token, rounded down; a product beyond `u128`
/// is taken as `u128::MAX`.
pub open spec fn usd_value(quantity: nat, price: nat) -> nat {
    if quantity * price <= u128::MAX {
        (quantity * price) / (UNITS_PER_TOKEN as nat)
    } else {
        (u128::MAX as nat) / (UNITS_PER_TOKEN as nat)
    }
}

/// `b` is `a` with its value set, every other field kept.
pub open spec fn revalued(a: SubscanOperation, b: SubscanOperation, price: nat) -> bool {
    b.operation_usd == usd_value(a.operation_quantity as nat, price)
    && b.hash == a.hash
    && b.block_number == a.block_number
    && b.operation_timestamp == a.operation_timestamp
    && b.operation_quantity == a.operation_quantity
    && b.operation_type == a.operation_type
    && b.from_wallet == a.from_wallet
    && b.to_wallet == a.to_wallet
    && b.extrinsic_index == a.extrinsic_index
}

/// Values every operation at one current price.
pub fn apply_price(ops: &mut Vec<SubscanOperation>, price: u128)
    ensures
        final(ops)@.len() == old(ops)@.len(),
        forall|i: int|
            0 <= i < final(ops)@.len() ==> revalued(old(ops)@[i], #[trigger] final(ops)@[i], price as nat),
{
    let mut i: usize = 0;
    while i < ops.len()
        invariant
            0 <= i <= ops@.len(),
            ops@.len() == old(ops)@.len(),
            forall|k: int| 0 <= k < i ==> revalued(old(ops)@[k], #[trigger] ops@[k], price as nat),
            forall|k: int| i <= k < ops@.len() ==> #[trigger] ops@[k] == old(ops)@[k],
        decreases ops@.len() - i,
    {
        let mut op = ops[i].duplicate();
        let q = op.operation_quantity;
        op.operation_usd = match q.checked_mul(price) {
            Some(p) => p / UNITS_PER_TOKEN,
            None => u128::MAX / UNITS_PER_TOKEN,
        };
        ops.set(i, op);
        i = i + 1;
    }
}

/// `b` is `a` with its destination looked up in `store` (kept where the
/// store holds nothing for the sender) and its identity computed after that.
pub open spec fn resolved(a: SubscanOperation, b: SubscanOperation, store: ValidatorStore) -> bool {
    b.to_wallet@ == (match store.validator_of(a.from_wallet@) {
        Some(v) => v,
        None => a.to_wallet@,
    })
    && b.hash@ == identity_of(b)
    && b.block_number == a.block_number
    && b.operation_timestamp == a.operation_timestamp
    && b.operation_quantity == a.operation_quantity
    && b.operation_usd == a.operation_usd
    && b.operation_type == a.operation_type
    && b.from_wallet == a.from_wallet
    && b.extrinsic_index == a.extrinsic_index
}

/// Resolves each operation's destination from the validator store, then
/// assigns its identity.
pub fn resolve_and_hash(ops: &mut Vec<SubscanOperation>, store: &ValidatorStore)
    ensures
        final(ops)@.len() == old(ops)@.len(),
        forall|i: int|
            0 <= i < final(ops)@.len() ==> resolved(old(ops)@[i], #[trigger] final(ops)@[i], *store),
{
    let mut i: usize = 0;
    while i < ops.len()
        invariant
            0 <= i <= ops@.len(),
            ops@.len() == old(ops)@.len(),
            forall|k: int| 0 <= k < i ==> resolved(old(ops)@[k], #[trigger] ops@[k], *store),
            forall|k: int| i <= k < ops@.len() ==> #[trigger] ops@[k] == old(ops)@[k],
        decreases ops@.len() - i,
    {
        let mut op = ops[i].duplicate();
        match store.get_validator_by_nominator(op.from_wallet.as_str()) {
            Some(v) => {
                op.to_wallet = v.validator;
            },
            None => {},
        }
        op.hash = compute_identity(&op);
        ops.set(i, op);
        i = i + 1;
    }
}

/// Relies on itertools::Itertools::unique: the first occurrence of each
/// distinct value is kept, in order.
#[verifier::external_body]
fn unique_texts(v: &Vec<String>) -> (r: Vec<String>)
    ensures
        forall|i: int, j: int| 0 <= i < j < r@.len() ==> (#[trigger] r@[i])@ != (#[trigger] r@[j])@,
        text_set(r@) == text_set(v@),
{
    v.iter().cloned().unique().collect()
}

/// Senders of a sequence of operations.
pub open spec fn senders(ops: Seq<SubscanOperation>) -> Set<Seq<char>> {
    Set::new(|k: Seq<char>| exists|i: int| 0 <= i < ops.len() && (#[trigger] ops[i]).from_wallet@ == k)
}

/// Each sender of the operations, once.
pub fn distinct_senders(ops: &Vec<SubscanOperation>) -> (r: Vec<String>)
    ensures
        forall|i: int, j: int| 0 <= i < j < r@.len() ==> (#[trigger] r@[i])@ != (#[trigger] r@[j])@,
        text_set(r@) == senders(ops@),
{
    let mut all: Vec<String> = Vec::new();
    let mut i: usize = 0;
    while i < ops.len()
        invariant
            0 <= i <= ops@.len(),
            all@.len() == i,
            forall|k: int| 0 <= k < i ==> (#[trigger] all@[k]) == ops@[k].from_wallet,
        decreases ops@.len() - i,
    {
        all.push(ops[i].from_wallet.clone());
        i = i + 1;
    }
    proof {
        assert forall|k: Seq<char>| #[trigger] text_set(all@).contains(k) <==> senders(ops@).contains(k) by {
            if senders(ops@).contains(k) {
                let j = choose|j: int| 0 <= j < ops@.len() && (#[trigger] ops@[j]).from_wallet@ == k;
                assert(all@[j]@ == k);
            }
        }
        assert(text_set(all@) =~= senders(ops@));
    }
    unique_texts(&all)
}

/// Within one run, where every operation carries the identity of its own
/// final fields, two operations with distinct (extrinsic index, kind,
/// sender, destination) tuples carry distinct hashes.
pub proof fn lemma_run_hashes_unique(ops: Seq<SubscanOperation>, i: int, j: int)
    requires
        0 <= i < ops.len(),
        0 <= j < ops.len(),
        forall|k: int| 0 <= k < ops.len() ==> (#[trigger] ops[k]).hash@ == identity_of(ops[k]),
        forall|k: int|
            0 <= k < ops.len() ==> (#[trigger] ops[k]).extrinsic_index@.len() <= usize::MAX
                && ops[k].from_wallet@.len() <= usize::MAX && ops[k].to_wallet@.len()
                <= usize::MAX,
        ops[i].extrinsic_index@ != ops[j].extrinsic_index@ || ops[i].operation_type
            != ops[j].operation_type || ops[i].from_wallet@ != ops[j].from_wallet@
            || ops[i].to_wallet@ != ops[j].to_wallet@,
    ensures
        ops[i].hash@ != ops[j].hash@,
{
    let a = ops[i];
    let b = ops[j];
    if a.hash@ == b.hash@ {
        lemma_identity_injective(
            a.extrinsic_index@,
            a.operation_type,
            a.from_wallet@,
            a.to_wallet@,
            b.extrinsic_index@,
            b.operation_type,
            b.from_wallet@,
            b.to_wallet@,
        );
    }
}

} // verus!
