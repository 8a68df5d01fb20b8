use vstd::prelude::*;
use crate::codec::{
    address_of, decimal_value, decode_address, is_amount, is_prefixed_account, parse_amount,
};
use crate::model::{
    unresolved_wallet, unresolved_wallet_text, BatchCall, CallParam, ExtrinsicsType,
    OperationType, RawExtrinsic, SubscanEvent, SubscanOperation,
};
use crate::text::text_eq;

verus! {

/// The operation kind of an extrinsic that makes a single staking call.
pub open spec fn kind_of_call(e: ExtrinsicsType) -> OperationType {
    match e {
        ExtrinsicsType::Bond | ExtrinsicsType::BondExtra | ExtrinsicsType::Rebond => {
            OperationType::Stake
        },
        ExtrinsicsType::Nominate => OperationType::ReStake,
        ExtrinsicsType::Unbond => OperationType::RequestUnstake,
        ExtrinsicsType::WithdrawUnbonded => OperationType::WithdrawUnstaked,
    }
}

/// Classifies a single-call extrinsic by its call.
pub fn classify_call(e: ExtrinsicsType) -> (r: OperationType)
    ensures
        r == kind_of_call(e),
{
    match e {
        ExtrinsicsType::Bond | ExtrinsicsType::BondExtra | ExtrinsicsType::Rebond => {
            OperationType::Stake
        },
        ExtrinsicsType::Nominate => OperationType::ReStake,
        ExtrinsicsType::Unbond => OperationType::RequestUnstake,
        ExtrinsicsType::WithdrawUnbonded => OperationType::WithdrawUnstaked,
    }
}

/// Every call that an extrinsic-list query can be scoped to, in declaration
/// order.
pub fn all_extrinsics_types() -> (r: Vec<ExtrinsicsType>)
    ensures
        r@ == seq![
            ExtrinsicsType::Bond,
            ExtrinsicsType::BondExtra,
            ExtrinsicsType::Rebond,
            ExtrinsicsType::Nominate,
            ExtrinsicsType::Unbond,
            ExtrinsicsType::WithdrawUnbonded,
        ],
{
    vec![
        ExtrinsicsType::Bond,
        ExtrinsicsType::BondExtra,
        ExtrinsicsType::Rebond,
        ExtrinsicsType::Nominate,
        ExtrinsicsType::Unbond,
        ExtrinsicsType::WithdrawUnbonded,
    ]
}

/// A listed extrinsic that succeeded and carries every field an operation
/// needs, with a timestamp whose milliseconds fit in an `i64`.
pub open spec fn is_usable(raw: RawExtrinsic) -> bool {
    raw.success == Some(true)
    && raw.block_timestamp is Some
    && i64::MIN <= raw.block_timestamp->0 * 1000 <= i64::MAX
    && raw.account_id is Some
    && raw.block_num is Some
    && raw.extrinsic_index is Some
}

/// `op` is the skeleton of `raw`: its identity fields come from the listing,
/// and hash, quantity, value and destination are still blank.
pub open spec fn is_skeleton_of(op: SubscanOperation, raw: RawExtrinsic, kind: OperationType) -> bool {
    carries_listing(op, raw)
    && op.operation_quantity == 0
    && op.operation_type == kind
    && op.to_wallet@ == unresolved_wallet()
}

/// `op` takes block, time, sender and index from `raw`, and has neither a
/// hash nor a value yet.
pub open spec fn carries_listing(op: SubscanOperation, raw: RawExtrinsic) -> bool {
    op.hash@ == Seq::<char>::empty()
    && op.block_number == raw.block_num->0
    && op.operation_timestamp == raw.block_timestamp->0 * 1000
    && op.operation_usd == 0
    && op.from_wallet == raw.account_id->0
    && op.extrinsic_index == raw.extrinsic_index->0
}

/// Builds the skeleton operation of a listed extrinsic, or `None` when the
/// listing is unusable.
pub fn operation_skeleton(raw: &RawExtrinsic, kind: OperationType) -> (r: Option<SubscanOperation>)
    ensures
        r is Some <==> is_usable(*raw),
        r matches Some(op) ==> is_skeleton_of(op, *raw, kind),
{
    match (raw.success, raw.block_timestamp, &raw.account_id, raw.block_num, &raw.extrinsic_index) {
        (Some(true), Some(seconds), Some(account), Some(block), Some(index)) => {
            let millis = seconds.checked_mul(1000);
            match millis {
                Some(ms) => Some(SubscanOperation {
                    hash: String::new(),
                    block_number: block,
                    operation_timestamp: ms,
                    operation_quantity: 0,
                    operation_usd: 0,
                    operation_type: kind,
                    from_wallet: account.clone(),
                    to_wallet: unresolved_wallet_text(),
                    extrinsic_index: index.clone(),
                }),
                None => None,
            }
        },
        _ => None,
    }
}

/// Positions, in order, of the usable extrinsics of a listing.
pub open spec fn usable_positions(raws: Seq<RawExtrinsic>) -> Seq<int>
    decreases raws.len(),
{
    if raws.len() == 0 {
        Seq::empty()
    } else {
        let rest = usable_positions(raws.drop_last());
        if is_usable(raws.last()) {
            rest.push(raws.len() - 1)
        } else {
            rest
        }
    }
}

proof fn lemma_usable_positions_bounded(raws: Seq<RawExtrinsic>)
    ensures
        forall|k: int|
            0 <= k < usable_positions(raws).len() ==> 0 <= #[trigger] usable_positions(raws)[k]
                < raws.len(),
    decreases raws.len(),
{
    if raws.len() > 0 {
        let rest = usable_positions(raws.drop_last());
        lemma_usable_positions_bounded(raws.drop_last());
        assert forall|k: int| 0 <= k < usable_positions(raws).len() implies 0
            <= #[trigger] usable_positions(raws)[k] < raws.len() by {
            if k < rest.len() {
                assert(usable_positions(raws)[k] == rest[k]);
            }
        }
    }
}

/// Turns one single-call listing into skeleton operations classified by the
/// listed call, keeping the usable extrinsics in listing order and skipping
/// the rest.
pub fn operations_from_listing(raws: &Vec<RawExtrinsic>, e: ExtrinsicsType) -> (r: Vec<
    SubscanOperation,
>)
    ensures
        r@.len() == usable_positions(raws@).len(),
        forall|k: int|
            0 <= k < r@.len() ==> is_skeleton_of(
                #[trigger] r@[k],
                raws@[usable_positions(raws@)[k]],
                kind_of_call(e),
            ),
{
    let kind = classify_call(e);
    let mut r: Vec<SubscanOperation> = Vec::new();
    let mut i: usize = 0;
    while i < raws.len()
        invariant
            0 <= i <= raws@.len(),
            kind == kind_of_call(e),
            r@.len() == usable_positions(raws@.subrange(0, i as int)).len(),
            forall|k: int|
                0 <= k < r@.len() ==> is_skeleton_of(
                    #[trigger] r@[k],
                    raws@[usable_positions(raws@.subrange(0, i as int))[k]],
                    kind,
                ),
        decreases raws@.len() - i,
    {
        let ghost before = raws@.subrange(0, i as int);
        let ghost after = raws@.subrange(0, i + 1);
        proof {
            assert(after.drop_last() =~= before);
            lemma_usable_positions_bounded(before);
        }
        match operation_skeleton(&raws[i], kind) {
            Some(op) => {
                r.push(op);
            },
            None => {},
        }
        proof {
            assert forall|k: int| 0 <= k < r@.len() implies is_skeleton_of(
                #[trigger] r@[k],
                raws@[usable_positions(after)[k]],
                kind,
            ) by {
                if k < usable_positions(before).len() {
                    assert(usable_positions(after)[k] == usable_positions(before)[k]);
                    assert(before[usable_positions(before)[k]] == raws@[usable_positions(before)[k]]);
                }
            }
        }
        i = i + 1;
    }
    proof {
        assert(raws@.subrange(0, raws@.len() as int) =~= raws@);
    }
    r
}

/// Position of the first sub-call at or after `i` with the given name.
pub open spec fn find_call_from(calls: Seq<BatchCall>, name: Seq<char>, i: int) -> Option<int>
    decreases calls.len() - i,
{
    if i < 0 || i >= calls.len() {
        None
    } else if calls[i].call_name@ == name {
        Some(i)
    } else {
        find_call_from(calls, name, i + 1)
    }
}

/// Position of the first parameter at or after `i` with the given name.
pub open spec fn find_param_from(params: Seq<CallParam>, name: Seq<char>, i: int) -> Option<int>
    decreases params.len() - i,
{
    if i < 0 || i >= params.len() {
        None
    } else if params[i].name@ == name {
        Some(i)
    } else {
        find_param_from(params, name, i + 1)
    }
}

proof fn lemma_find_call_bounded(calls: Seq<BatchCall>, name: Seq<char>, i: int)
    ensures
        find_call_from(calls, name, i) matches Some(j) ==> i <= j < calls.len(),
    decreases calls.len() - i,
{
    if 0 <= i < calls.len() && calls[i].call_name@ != name {
        lemma_find_call_bounded(calls, name, i + 1);
    }
}

proof fn lemma_find_param_bounded(params: Seq<CallParam>, name: Seq<char>, i: int)
    ensures
        find_param_from(params, name, i) matches Some(j) ==> i <= j < params.len(),
    decreases params.len() - i,
{
    if 0 <= i < params.len() && params[i].name@ != name {
        lemma_find_param_bounded(params, name, i + 1);
    }
}

fn find_call(calls: &Vec<BatchCall>, name: &str) -> (r: Option<usize>)
    ensures
        r is None <==> find_call_from(calls@, name@, 0) is None,
        r matches Some(j) ==> find_call_from(calls@, name@, 0) == Some(j as int),
{
    proof {
        lemma_find_call_bounded(calls@, name@, 0);
    }
    let mut i: usize = 0;
    while i < calls.len()
        invariant
            0 <= i <= calls@.len(),
            find_call_from(calls@, name@, 0) == find_call_from(calls@, name@, i as int),
        decreases calls@.len() - i,
    {
        if text_eq(calls[i].call_name.as_str(), name) {
            return Some(i);
        }
        i = i + 1;
    }
    None
}

fn find_param(params: &Vec<CallParam>, name: &str) -> (r: Option<usize>)
    ensures
        r is None <==> find_param_from(params@, name@, 0) is None,
        r matches Some(j) ==> find_param_from(params@, name@, 0) == Some(j as int),
{
    proof {
        lemma_find_param_bounded(params@, name@, 0);
    }
    let mut i: usize = 0;
    while i < params.len()
        invariant
            0 <= i <= params@.len(),
            find_param_from(params@, name@, 0) == find_param_from(params@, name@, i as int),
        decreases params@.len() - i,
    {
        if text_eq(params[i].name.as_str(), name) {
            return Some(i);
        }
        i = i + 1;
    }
    None
}

/// The amount that a batch assigns through the first sub-call named `call`,
/// read from its first parameter named `param`: zero where no such sub-call
/// is present, `None` where the parameter is missing or is no amount.
pub open spec fn call_amount(calls: Seq<BatchCall>, call: Seq<char>, param: Seq<char>) -> Option<nat> {
    match find_call_from(calls, call, 0) {
        None => Some(0),
        Some(c) => match find_param_from(calls[c].params@, param, 0) {
            None => None,
            Some(p) => {
                let v = calls[c].params@[p].value@;
                if is_amount(v) {
                    Some(decimal_value(v))
                } else {
                    None
                }
            },
        },
    }
}

/// The nominated validator of a batch: `Some(None)` without a `nominate`
/// sub-call, `None` where its target is no prefixed hex account id.
pub open spec fn nominate_target(calls: Seq<BatchCall>) -> Option<Option<Seq<char>>> {
    match find_call_from(calls, "nominate"@, 0) {
        None => Some(None),
        Some(c) => {
            let ps = calls[c].params@;
            if ps.len() > 0 && is_prefixed_account(ps[0].value@) {
                Some(Some(address_of(ps[0].value@)))
            } else {
                None
            }
        },
    }
}

/// Unbonded amounts at or below this many smallest units do not count as
/// an unstake request.
pub const UNBOND_EPSILON: u128 = 1;

/// The kind of a batch: an unbond dominates, then a nomination, else a stake.
pub open spec fn batch_kind(unbond: nat, has_target: bool) -> OperationType {
    if unbond > UNBOND_EPSILON {
        OperationType::RequestUnstake
    } else if has_target {
        OperationType::ReStake
    } else {
        OperationType::Stake
    }
}

/// A batch whose listing is usable, whose amounts and target decode, and
/// whose amounts sum within a `u128`.
pub open spec fn is_decodable_batch(raw: RawExtrinsic, calls: Seq<BatchCall>) -> bool {
    is_usable(raw)
    && call_amount(calls, "bond"@, "value"@) is Some
    && call_amount(calls, "bond_extra"@, "max_additional"@) is Some
    && call_amount(calls, "unbond"@, "value"@) is Some
    && nominate_target(calls) is Some
    && batch_quantity(calls) <= u128::MAX
}

/// Bonded, extra bonded and unbonded amounts of a batch, summed.
pub open spec fn batch_quantity(calls: Seq<BatchCall>) -> nat {
    call_amount(calls, "bond"@, "value"@)->0 + call_amount(
        calls,
        "bond_extra"@,
        "max_additional"@,
    )->0 + call_amount(calls, "unbond"@, "value"@)->0
}

fn amount_of_call(calls: &Vec<BatchCall>, call: &str, param: &str) -> (r: Option<u128>)
    ensures
        r matches Some(v) ==> call_amount(calls@, call@, param@) == Some(v as nat),
        r is None ==> call_amount(calls@, call@, param@) is None,
{
    match find_call(calls, call) {
        None => Some(0),
        Some(c) => {
            proof {
                lemma_find_call_bounded(calls@, call@, 0);
            }
            match find_param(&calls[c].params, param) {
                None => None,
                Some(p) => {
                    proof {
                        lemma_find_param_bounded(calls@[c as int].params@, param@, 0);
                    }
                    parse_amount(calls[c].params[p].value.as_str())
                },
            }
        },
    }
}

fn target_of_batch(calls: &Vec<BatchCall>) -> (r: Option<Option<String>>)
    ensures
        r is Some <==> nominate_target(calls@) is Some,
        r matches Some(t) ==> (t is Some <==> nominate_target(calls@)->0 is Some),
        r matches Some(Some(a)) ==> a@ == nominate_target(calls@)->0->0,
{
    match find_call(calls, "nominate") {
        None => Some(None),
        Some(c) => {
            proof {
                lemma_find_call_bounded(calls@, "nominate"@, 0);
            }
            if calls[c].params.len() == 0 {
                return None;
            }
            match decode_address(calls[c].params[0].value.as_str()) {
                Some(a) => Some(Some(a)),
                None => None,
            }
        },
    }
}

/// Decodes a batch extrinsic into one operation: the amounts of its
/// `bond`, `bond_extra` and `unbond` sub-calls summed, its `nominate`
/// target as destination, and its kind by `batch_kind`. `None` where the
/// batch is not decodable.
pub fn decode_batch(raw: &RawExtrinsic, calls: &Vec<BatchCall>) -> (r: Option<SubscanOperation>)
    ensures
        r is Some <==> is_decodable_batch(*raw, calls@),
        r matches Some(op) ==> {
            &&& carries_listing(op, *raw)
            &&& op.operation_quantity == batch_quantity(calls@)
            &&& op.to_wallet@ == (match nominate_target(calls@)->0 {
                Some(a) => a,
                None => unresolved_wallet(),
            })
            &&& op.operation_type == batch_kind(
                call_amount(calls@, "unbond"@, "value"@)->0,
                nominate_target(calls@)->0 is Some,
            )
        },
{
    let skeleton = operation_skeleton(raw, OperationType::Stake);
    let mut op = match skeleton {
        Some(op) => op,
        None => return None,
    };
    let bond = match amount_of_call(calls, "bond", "value") {
        Some(v) => v,
        None => return None,
    };
    let bond_extra = match amount_of_call(calls, "bond_extra", "max_additional") {
        Some(v) => v,
        None => return None,
    };
    let unbond = match amount_of_call(calls, "unbond", "value") {
        Some(v) => v,
        None => return None,
    };
    let target = match target_of_batch(calls) {
        Some(t) => t,
        None => return None,
    };
    let quantity = match bond.checked_add(bond_extra) {
        Some(q) => match q.checked_add(unbond) {
            Some(q) => q,
            None => return None,
        },
        None => return None,
    };
    let has_target = target.is_some();
    op.operation_quantity = quantity;
    op.operation_type = if unbond > UNBOND_EPSILON {
        OperationType::RequestUnstake
    } else if has_target {
        OperationType::ReStake
    } else {
        OperationType::Stake
    };
    match target {
        Some(a) => {
            op.to_wallet = a;
        },
        None => {},
    }
    Some(op)
}

/// Staking account and amount read from the events of one extrinsic: the
/// second event, with at least two parameters, the first named `stash` or
/// `who` holding a prefixed hex account id, the last named `amount` holding
/// an amount. `None` for any other shape.
pub open spec fn stake_event_fields(events: Seq<SubscanEvent>) -> Option<(Seq<char>, nat)> {
    if events.len() >= 2 {
        let ps = events[1].event_params@;
        if ps.len() >= 2 && (ps[0].name@ == "stash"@ || ps[0].name@ == "who"@) && ps.last().name@
            == "amount"@ && is_prefixed_account(ps[0].value@) && is_amount(ps.last().value@) {
            Some((address_of(ps[0].value@), decimal_value(ps.last().value@)))
        } else {
            None
        }
    } else {
        None
    }
}

/// Backfills sender and quantity of a single-call operation from the events
/// of its extrinsic; `None` where the events do not have the staking shape.
/// The destination is reset to unresolved; other fields are kept.
pub fn enrich_operation(op: &SubscanOperation, events: &Vec<SubscanEvent>) -> (r: Option<
    SubscanOperation,
>)
    ensures
        r is Some <==> stake_event_fields(events@) is Some,
        r matches Some(e) ==> {
            let f = stake_event_fields(events@)->0;
            &&& e.from_wallet@ == f.0
            &&& e.operation_quantity == f.1
            &&& e.to_wallet@ == unresolved_wallet()
            &&& e.hash == op.hash
            &&& e.block_number == op.block_number
            &&& e.operation_timestamp == op.operation_timestamp
            &&& e.operation_usd == op.operation_usd
            &&& e.operation_type == op.operation_type
            &&& e.extrinsic_index == op.extrinsic_index
        },
{
    if events.len() < 2 {
        return None;
    }
    let params = &events[1].event_params;
    let n = params.len();
    if n < 2 {
        return None;
    }
    let first = &params[0];
    let last = &params[n - 1];
    if !text_eq(first.name.as_str(), "stash") && !text_eq(first.name.as_str(), "who") {
        return None;
    }
    if !text_eq(last.name.as_str(), "amount") {
        return None;
    }
    let address = match decode_address(first.value.as_str()) {
        Some(a) => a,
        None => return None,
    };
    let amount = match parse_amount(last.value.as_str()) {
        Some(v) => v,
        None => return None,
    };
    let mut e = op.duplicate();
    e.from_wallet = address;
    e.to_wallet = unresolved_wallet_text();
    e.operation_quantity = amount;
    Some(e)
}

} // verus!
