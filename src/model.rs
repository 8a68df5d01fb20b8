use vstd::prelude::*;

verus! {

/// Networks whose explorer the client can query.
#[derive(Clone, Copy, Debug, PartialEq, Eq, Structural, PartialOrd, Ord, Hash, Default)]
pub enum Network {
    #[default]
    Alephzero,
}

impl Network {
    /// The network's name as used in explorer host names.
    pub fn name(&self) -> (r: String)
        ensures
            r@ == seq!['a', 'l', 'e', 'p', 'h', 'z', 'e', 'r', 'o'],
    {
        let r = "alephzero".to_owned();
        proof {
            reveal_strlit("alephzero");
        }
        r
    }
}

/// Explorer modules that extrinsic-list queries are scoped to.
#[derive(Clone, Copy, Debug, PartialEq, Eq, Structural, Hash)]
pub enum Module {
    Staking,
    Utility,
}

/// Single staking calls that an extrinsic-list query can be scoped to.
#[derive(Clone, Copy, Debug, PartialEq, Eq, Structural, Hash)]
pub enum ExtrinsicsType {
    Bond,
    BondExtra,
    Rebond,
    Nominate,
    Unbond,
    WithdrawUnbonded,
}

/// The kind of a reconciled staking operation.
#[derive(Clone, Copy, Debug, PartialEq, Eq, Structural, Hash)]
pub enum OperationType {
    Stake,
    ReStake,
    RequestUnstake,
    WithdrawUnstaked,
}

/// One named, typed parameter of an emitted event.
#[derive(Clone, Debug)]
pub struct SubscanEventParam {
    pub name: String,
    pub param_type: String,
    pub value: String,
}

/// An event emitted on chain, with its parameters in order.
#[derive(Clone, Debug)]
pub struct SubscanEvent {
    pub event_index: String,
    pub event_params: Vec<SubscanEventParam>,
}

/// A staking operation.
///
/// `operation_quantity` counts the smallest unit of the token (10^-12 of
/// one token); `operation_usd` counts millionths of a US dollar;
/// `operation_timestamp` counts milliseconds since the Unix epoch.
#[derive(Clone, Debug)]
pub struct SubscanOperation {
    pub hash: String,
    pub block_number: u64,
    pub operation_timestamp: i64,
    pub operation_quantity: u128,
    pub operation_usd: u128,
    pub operation_type: OperationType,
    pub from_wallet: String,
    pub to_wallet: String,
    pub extrinsic_index: String,
}

impl SubscanOperation {
    /// A field-by-field copy.
    pub fn duplicate(&self) -> (r: Self)
        ensures
            r == *self,
    {
        SubscanOperation {
            hash: self.hash.clone(),
            block_number: self.block_number,
            operation_timestamp: self.operation_timestamp,
            operation_quantity: self.operation_quantity,
            operation_usd: self.operation_usd,
            operation_type: self.operation_type,
            from_wallet: self.from_wallet.clone(),
            to_wallet: self.to_wallet.clone(),
            extrinsic_index: self.extrinsic_index.clone(),
        }
    }
}

/// A nominator and the validator it nominates.
#[derive(Clone, Debug)]
pub struct Validator {
    pub nominator: String,
    pub validator: String,
}

/// The text that marks an operation whose destination validator is unknown.
pub open spec fn unresolved_wallet() -> Seq<char> {
    seq!['n', 'o', 'n', 'e']
}

/// Builds the text that marks an unresolved destination.
pub fn unresolved_wallet_text() -> (r: String)
    ensures
        r@ == unresolved_wallet(),
{
    let r = "none".to_owned();
    proof {
        reveal_strlit("none");
    }
    r
}

/// An extrinsic as listed by the explorer; a field that the listing lacked,
/// or held with another type, is `None`.
#[derive(Clone, Debug)]
pub struct RawExtrinsic {
    pub success: Option<bool>,
    pub block_timestamp: Option<i64>,
    pub account_id: Option<String>,
    pub block_num: Option<u64>,
    pub extrinsic_index: Option<String>,
}

/// A parameter of a sub-call of a batch.
#[derive(Clone, Debug)]
pub struct CallParam {
    pub name: String,
    pub value: String,
}

/// A sub-call of a batch extrinsic.
///
/// For `nominate`, `params` holds one parameter whose value is the hex
/// account id of the first target.
#[derive(Clone, Debug)]
pub struct BatchCall {
    pub call_name: String,
    pub params: Vec<CallParam>,
}

} // verus!
