//! The values that flow between the ledger, the log and settlement.
use vstd::prelude::*;

verus! {

/// An amount in the ledger's smallest unit.
#[derive(Clone, Copy, Debug, PartialEq, Eq, Structural)]
pub struct E8s {
    pub e8s: u64,
}

/// A point in time, in nanoseconds since the epoch.
#[derive(Clone, Copy, Debug, PartialEq, Eq, Structural)]
pub struct Timestamp {
    pub timestamp_nanos: u64,
}

impl Timestamp {
    pub fn from_nanos(nanos: u64) -> (r: Timestamp)
        ensures
            r.timestamp_nanos == nanos,
    {
        Timestamp { timestamp_nanos: nanos }
    }
}

#[derive(Clone, Debug, PartialEq, Eq)]
pub struct Approve {
    pub from: Vec<u8>,
    pub spender: Vec<u8>,
    pub allowance: E8s,
    pub expected_allowance: Option<E8s>,
    pub fee: E8s,
    pub expires_at: Option<Timestamp>,
}

#[derive(Clone, Debug, PartialEq, Eq)]
pub struct Burn {
    pub from: Vec<u8>,
    pub spender: Option<Vec<u8>>,
    pub amount: E8s,
}

#[derive(Clone, Debug, PartialEq, Eq)]
pub struct Mint {
    pub to: Vec<u8>,
    pub amount: E8s,
}

#[derive(Clone, Debug, PartialEq, Eq)]
pub struct Transfer {
    pub to: Vec<u8>,
    pub fee: E8s,
    pub from: Vec<u8>,
    pub amount: E8s,
    pub spender: Option<Vec<u8>>,
}

/// One settled ledger operation, with the addresses it names.
#[derive(Clone, Debug, PartialEq, Eq)]
pub enum Operation {
    Approve(Approve),
    Burn(Burn),
    Mint(Mint),
    Transfer(Transfer),
}

/// The transaction that a ledger block records.
#[derive(Clone, Debug, PartialEq, Eq)]
pub struct Transaction {
    pub memo: u64,
    pub icrc1_memo: Option<Vec<u8>>,
    pub operation: Option<Operation>,
    pub created_at_time: Timestamp,
}

/// One block of a page that the ledger returned.
#[derive(Clone, Debug, PartialEq, Eq)]
pub struct Block {
    pub transaction: Transaction,
}

/// Where a recorded deposit stands in settlement.
#[derive(Clone, Copy, Debug, PartialEq, Eq, Structural)]
pub enum SweepStatus {
    NotSwept,
    Swept,
    FailedToSweep,
}

/// A recorded operation, keyed by the absolute index of its block.
#[derive(Clone, Debug, PartialEq, Eq)]
pub struct StoredTransactions {
    pub index: u64,
    pub memo: u64,
    pub icrc1_memo: Option<Vec<u8>>,
    pub operation: Option<Operation>,
    pub created_at_time: Timestamp,
    pub sweep_status: SweepStatus,
}

/// Two optional byte strings hold the same bytes.
pub open spec fn same_bytes_opt(a: Option<Vec<u8>>, b: Option<Vec<u8>>) -> bool {
    match (a, b) {
        (None, None) => true,
        (Some(x), Some(y)) => x@ == y@,
        _ => false,
    }
}

/// Two operations agree in every field, byte strings compared by content.
pub open spec fn same_operation(a: Operation, b: Operation) -> bool {
    match (a, b) {
        (Operation::Approve(x), Operation::Approve(y)) => x.from@ == y.from@ && x.spender@
            == y.spender@ && x.allowance == y.allowance && x.expected_allowance
            == y.expected_allowance && x.fee == y.fee && x.expires_at == y.expires_at,
        (Operation::Burn(x), Operation::Burn(y)) => x.from@ == y.from@ && same_bytes_opt(
            x.spender,
            y.spender,
        ) && x.amount == y.amount,
        (Operation::Mint(x), Operation::Mint(y)) => x.to@ == y.to@ && x.amount == y.amount,
        (Operation::Transfer(x), Operation::Transfer(y)) => x.to@ == y.to@ && x.fee == y.fee
            && x.from@ == y.from@ && x.amount == y.amount && same_bytes_opt(x.spender, y.spender),
        _ => false,
    }
}

pub open spec fn same_operation_opt(a: Option<Operation>, b: Option<Operation>) -> bool {
    match (a, b) {
        (None, None) => true,
        (Some(x), Some(y)) => same_operation(x, y),
        _ => false,
    }
}

/// A copy of a byte string.
pub fn copy_bytes(v: &Vec<u8>) -> (r: Vec<u8>)
    ensures
        r@ == v@,
{
    let r = v.clone();
    assert(r@ =~= v@);
    r
}

pub fn copy_bytes_opt(v: &Option<Vec<u8>>) -> (r: Option<Vec<u8>>)
    ensures
        same_bytes_opt(r, *v),
{
    match v {
        Some(b) => Some(copy_bytes(b)),
        None => None,
    }
}

impl Operation {
    /// A copy of this operation.
    pub fn duplicate(&self) -> (r: Operation)
        ensures
            same_operation(r, *self),
    {
        match self {
            Operation::Approve(x) => Operation::Approve(
                Approve {
                    from: copy_bytes(&x.from),
                    spender: copy_bytes(&x.spender),
                    allowance: x.allowance,
                    expected_allowance: x.expected_allowance,
                    fee: x.fee,
                    expires_at: x.expires_at,
                },
            ),
            Operation::Burn(x) => Operation::Burn(
                Burn {
                    from: copy_bytes(&x.from),
                    spender: copy_bytes_opt(&x.spender),
                    amount: x.amount,
                },
            ),
            Operation::Mint(x) => Operation::Mint(Mint { to: copy_bytes(&x.to), amount: x.amount }),
            Operation::Transfer(x) => Operation::Transfer(
                Transfer {
                    to: copy_bytes(&x.to),
                    fee: x.fee,
                    from: copy_bytes(&x.from),
                    amount: x.amount,
                    spender: copy_bytes_opt(&x.spender),
                },
            ),
        }
    }
}

impl StoredTransactions {
    /// Records the transaction of block `index`, not yet swept.
    pub fn new(index: u64, transaction: Transaction) -> (r: StoredTransactions)
        ensures
            r == (StoredTransactions {
                index,
                memo: transaction.memo,
                icrc1_memo: transaction.icrc1_memo,
                operation: transaction.operation,
                created_at_time: transaction.created_at_time,
                sweep_status: SweepStatus::NotSwept,
            }),
    {
        StoredTransactions {
            index,
            memo: transaction.memo,
            icrc1_memo: transaction.icrc1_memo,
            operation: transaction.operation,
            created_at_time: transaction.created_at_time,
            sweep_status: SweepStatus::NotSwept,
        }
    }

    /// Both entries agree in every field, byte strings compared by content.
    pub open spec fn same_as(&self, other: &StoredTransactions) -> bool {
        &&& self.index == other.index
        &&& self.memo == other.memo
        &&& same_bytes_opt(self.icrc1_memo, other.icrc1_memo)
        &&& same_operation_opt(self.operation, other.operation)
        &&& self.created_at_time == other.created_at_time
        &&& self.sweep_status == other.sweep_status
    }

    /// A copy of this entry.
    pub fn duplicate(&self) -> (r: StoredTransactions)
        ensures
            r.same_as(self),
    {
        let operation = match &self.operation {
            Some(op) => Some(op.duplicate()),
            None => None,
        };
        StoredTransactions {
            index: self.index,
            memo: self.memo,
            icrc1_memo: copy_bytes_opt(&self.icrc1_memo),
            operation,
            created_at_time: self.created_at_time,
            sweep_status: self.sweep_status,
        }
    }
}

/// Entry by entry, `a` holds what `b` holds.
pub open spec fn same_entries(a: Seq<StoredTransactions>, b: Seq<StoredTransactions>) -> bool {
    a.len() == b.len() && forall|i: int| 0 <= i < a.len() ==> #[trigger] a[i].same_as(&b[i])
}

/// A transfer that settlement asks the ledger to make; `to_owner` is the
/// recipient principal's bytes, and `memo` tags it for failure correlation.
#[derive(Clone, Debug, PartialEq, Eq)]
pub struct Icrc1TransferRequest {
    pub to_owner: Vec<u8>,
    pub to_subaccount: Option<Vec<u8>>,
    pub fee: Option<u64>,
    pub memo: Option<Vec<u8>>,
    pub from_subaccount: Option<Vec<u8>>,
    pub created_at_time: Option<u64>,
    pub amount: u64,
}

/// A page of blocks that synchronisation asks the ledger for.
#[derive(Clone, Copy, Debug, PartialEq, Eq, Structural)]
pub struct QueryBlocksRequest {
    pub start: u64,
    pub length: u64,
}

/// The errors that the vault reports to its caller.
#[derive(Clone, Copy, Debug, PartialEq, Eq, Structural)]
pub enum VaultError {
    /// A required address is not configured.
    ConfigurationError,
    /// No address or log entry under the given nonce or key.
    NotFoundError,
    /// The entry's operation does not qualify for the request.
    IneligibleError,
}

} // verus!
