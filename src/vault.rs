//! The vault: one state object for synchronisation, the log, settlement and
//! the sync interval. Calls to the ledger are made by the caller: the vault
//! says what to ask for and takes back what came.
use vstd::prelude::*;
use crate::address::{AddressSpace, address_of, hex_of};
use crate::codec::{be_bytes_u64, key_to_memo, memo_key, memo_to_key};
use crate::log::{TransactionLog, has_key, insert_if_absent_spec, kept, list_skip, sorted_by_key};
use crate::types::{
    Block,
    Icrc1TransferRequest,
    Operation,
    QueryBlocksRequest,
    StoredTransactions,
    SweepStatus,
    Timestamp,
    VaultError,
    copy_bytes,
    same_entries,
};

verus! {

/// The number of blocks asked for in one page.
pub const PAGE_LENGTH: u64 = 100;

/// The number of entries that a listing without a limit hands out.
pub const DEFAULT_LIST_LIMIT: u64 = 100;

/// The principal bytes that a principal's text form stands for, if it is valid.
pub uninterp spec fn principal_text_bytes(text: Seq<char>) -> Option<Seq<u8>>;

/// Relies on candid::Principal::from_text: a valid text yields a principal
/// of at most 29 bytes, an invalid one an error.
#[verifier::external_body]
fn parse_principal(text: &str) -> (r: Option<Vec<u8>>)
    ensures
        match r {
            Some(b) => principal_text_bytes(text@) == Some(b@) && b@.len() <= 29,
            None => principal_text_bytes(text@) is None,
        },
{
    candid::Principal::from_text(text).ok().map(|p| p.as_slice().to_vec())
}

/// `b` is the raw identifier of an address registered in `a`.
pub open spec fn watched(a: AddressSpace, b: Seq<u8>) -> bool {
    b.len() == 32 && a.tracks(b)
}

/// Whether an operation touches a watched address in the way that counts
/// for its kind.
pub open spec fn op_matches(a: AddressSpace, op: Operation) -> bool {
    match op {
        Operation::Approve(x) => watched(a, x.from@) || watched(a, x.spender@),
        Operation::Burn(x) => watched(a, x.from@) || (x.spender matches Some(s) && watched(a, s@)),
        Operation::Mint(x) => watched(a, x.to@),
        Operation::Transfer(x) => watched(a, x.to@) || (x.spender matches Some(s) && watched(
            a,
            s@,
        )),
    }
}

/// Whether the block is recorded: it holds an operation that matches.
pub open spec fn block_matches(a: AddressSpace, b: Block) -> bool {
    b.transaction.operation matches Some(op) && op_matches(a, op)
}

/// The entry that a block at absolute index `index` becomes.
pub open spec fn entry_of(index: u64, b: Block) -> StoredTransactions {
    StoredTransactions {
        index,
        memo: b.transaction.memo,
        icrc1_memo: b.transaction.icrc1_memo,
        operation: b.transaction.operation,
        created_at_time: b.transaction.created_at_time,
        sweep_status: SweepStatus::NotSwept,
    }
}

/// The log after taking in a page of blocks that starts at `start`.
pub open spec fn ingest(a: AddressSpace, s: Seq<StoredTransactions>, start: u64, blocks: Seq<Block>) -> Seq<
    StoredTransactions,
>
    decreases blocks.len(),
{
    if blocks.len() == 0 {
        s
    } else {
        let prev = ingest(a, s, start, blocks.drop_last());
        if block_matches(a, blocks.last()) {
            insert_if_absent_spec(prev, entry_of((start + blocks.len() - 1) as u64, blocks.last()))
        } else {
            prev
        }
    }
}

/// An entry that a sweep moves: not yet swept, a transfer to a watched address.
pub open spec fn sweepable(a: AddressSpace, e: StoredTransactions) -> bool {
    e.sweep_status == SweepStatus::NotSwept && (e.operation matches Some(Operation::Transfer(t))
        && watched(a, t.to@))
}

/// The entry as a sweep leaves it.
pub open spec fn after_sweep(a: AddressSpace, e: StoredTransactions) -> StoredTransactions {
    if sweepable(a, e) {
        StoredTransactions { sweep_status: SweepStatus::Swept, ..e }
    } else {
        e
    }
}

/// The entries that a sweep moves, in order.
pub open spec fn sweep_selection(a: AddressSpace, s: Seq<StoredTransactions>) -> Seq<StoredTransactions>
    decreases s.len(),
{
    if s.len() == 0 {
        s
    } else if sweepable(a, s.last()) {
        sweep_selection(a, s.drop_last()).push(s.last())
    } else {
        sweep_selection(a, s.drop_last())
    }
}

/// `r` moves the amount of entry `e` from its watched address to the
/// custodian, tagged with the entry's key.
pub open spec fn is_sweep_request(r: Icrc1TransferRequest, e: StoredTransactions, custodian: Seq<u8>) -> bool {
    &&& e.operation matches Some(Operation::Transfer(t))
    &&& r.to_owner@ == custodian
    &&& r.to_subaccount is None
    &&& r.fee is None
    &&& (r.memo matches Some(m) && m@ == be_bytes_u64(e.index))
    &&& (r.from_subaccount matches Some(f) && f@ == t.to@)
    &&& r.created_at_time is None
    &&& r.amount == t.amount.e8s
}

/// An entry that can be refunded: a transfer to a watched address with a spender.
pub open spec fn refundable(a: AddressSpace, e: StoredTransactions) -> bool {
    e.operation matches Some(Operation::Transfer(t)) && t.spender is Some && watched(a, t.to@)
}

/// `r` returns the full amount of entry `e` from its watched address to its spender.
pub open spec fn is_refund_request(r: Icrc1TransferRequest, e: StoredTransactions) -> bool {
    &&& e.operation matches Some(Operation::Transfer(t))
    &&& (t.spender matches Some(sp) && r.to_owner@ == sp@)
    &&& r.to_subaccount is None
    &&& r.fee is None
    &&& r.memo is None
    &&& (r.from_subaccount matches Some(f) && f@ == t.to@)
    &&& r.created_at_time is None
    &&& r.amount == t.amount.e8s
}

/// The state of one vault.
pub struct Vault {
    interval_seconds: u64,
    ledger: Option<Vec<u8>>,
    custodian: Option<Vec<u8>>,
    addresses: AddressSpace,
    log: TransactionLog,
    next_block: u64,
}

pub open spec fn bytes_view(b: Option<Vec<u8>>) -> Option<Seq<u8>> {
    match b {
        Some(v) => Some(v@),
        None => None,
    }
}

impl Vault {
    pub closed spec fn interval(&self) -> u64 {
        self.interval_seconds
    }

    /// The ledger's principal bytes, if configured.
    pub closed spec fn ledger(&self) -> Option<Seq<u8>> {
        bytes_view(self.ledger)
    }

    /// The custodian's principal bytes, if configured.
    pub closed spec fn custodian(&self) -> Option<Seq<u8>> {
        bytes_view(self.custodian)
    }

    pub closed spec fn addresses(&self) -> AddressSpace {
        self.addresses
    }

    /// The log's entries, in ascending key order.
    pub closed spec fn entries(&self) -> Seq<StoredTransactions> {
        self.log.view()
    }

    /// The next block index to fetch.
    pub closed spec fn cursor(&self) -> u64 {
        self.next_block
    }

    pub closed spec fn wf(&self) -> bool {
        self.addresses.wf() && self.log.wf()
    }

    /// A vault whose addresses derive from `root`, with `nonce` of them
    /// registered already, an empty log and the cursor at block 0.
    pub fn new(
        interval_seconds: u64,
        nonce: u32,
        root: Vec<u8>,
        ledger: Option<Vec<u8>>,
        custodian: Option<Vec<u8>>,
    ) -> (r: Vault)
        requires
            root@.len() <= 29,
        ensures
            r.wf(),
            r.interval() == interval_seconds,
            r.addresses().root() == root@,
            r.addresses().count() == nonce,
            r.ledger() == bytes_view(ledger),
            r.custodian() == bytes_view(custodian),
            r.entries() == Seq::<StoredTransactions>::empty(),
            r.cursor() == 0,
    {
        Vault {
            interval_seconds,
            ledger,
            custodian,
            addresses: AddressSpace::rebuild(root, nonce),
            log: TransactionLog::new(),
            next_block: 0,
        }
    }

    /// One-time setup from the principals' text forms; the custodian is also
    /// the root identity of the derived addresses. Fails with
    /// `ConfigurationError` when either text is no valid principal.
    pub fn configure(interval_seconds: u64, nonce: u32, ledger: &str, custodian: &str) -> (r:
        Result<Vault, VaultError>)
        ensures
            (principal_text_bytes(ledger@) is None || principal_text_bytes(custodian@) is None)
                ==> r == Err::<Vault, VaultError>(VaultError::ConfigurationError),
            (principal_text_bytes(ledger@) is Some && principal_text_bytes(custodian@) is Some)
                ==> (r matches Ok(v) && v.wf() && v.interval() == interval_seconds
                && v.ledger() == principal_text_bytes(ledger@) && v.custodian()
                == principal_text_bytes(custodian@) && Some(v.addresses().root())
                == principal_text_bytes(custodian@) && v.addresses().count() == nonce
                && v.entries().len() == 0 && v.cursor() == 0),
    {
        let l = match parse_principal(ledger) {
            Some(b) => b,
            None => {
                return Err(VaultError::ConfigurationError);
            },
        };
        let c = match parse_principal(custodian) {
            Some(b) => b,
            None => {
                return Err(VaultError::ConfigurationError);
            },
        };
        let root = copy_bytes(&c);
        Ok(Vault::new(interval_seconds, nonce, root, Some(l), Some(c)))
    }

    /// Registers the address of the next nonce and returns it in hex.
    pub fn register_address(&mut self) -> (r: String)
        requires
            old(self).wf(),
            old(self).addresses().count() < u32::MAX,
        ensures
            final(self).wf(),
            r@ == hex_of(address_of(old(self).addresses().root(), old(self).addresses().count() as u32)),
            final(self).addresses().root() == old(self).addresses().root(),
            final(self).addresses().count() == old(self).addresses().count() + 1,
            final(self).entries() == old(self).entries(),
            final(self).cursor() == old(self).cursor(),
            final(self).ledger() == old(self).ledger(),
            final(self).custodian() == old(self).custodian(),
            final(self).interval() == old(self).interval(),
    {
        let id = self.addresses.register();
        crate::address::encode_hex_of(&id)
    }

    /// The hex address of `nonce`; `NotFoundError` unless it is registered.
    pub fn get_address_by_nonce(&self, nonce: u32) -> (r: Result<String, VaultError>)
        requires
            self.wf(),
        ensures
            nonce < self.addresses().count() ==> (r matches Ok(s) && s@ == hex_of(
                address_of(self.addresses().root(), nonce),
            )),
            nonce >= self.addresses().count() ==> r == Err::<String, VaultError>(
                VaultError::NotFoundError,
            ),
    {
        match self.addresses.lookup(nonce) {
            Some(s) => Ok(s),
            None => Err(VaultError::NotFoundError),
        }
    }

    /// How many addresses are registered.
    pub fn get_address_count(&self) -> (r: u32)
        requires
            self.wf(),
        ensures
            r == self.addresses().count(),
    {
        self.addresses.len()
    }

    /// Whether `bytes` is the raw identifier of a registered address.
    pub fn is_watched(&self, bytes: &Vec<u8>) -> (r: bool)
        requires
            self.wf(),
        ensures
            r == watched(self.addresses(), bytes@),
    {
        self.addresses.contains(bytes)
    }

    /// Re-derives the address index from the root and the count, as after a
    /// restart.
    pub fn rebuild_index(&mut self)
        requires
            old(self).wf(),
        ensures
            final(self).wf(),
            final(self).addresses().root() == old(self).addresses().root(),
            final(self).addresses().count() == old(self).addresses().count(),
            final(self).entries() == old(self).entries(),
            final(self).cursor() == old(self).cursor(),
            final(self).ledger() == old(self).ledger(),
            final(self).custodian() == old(self).custodian(),
            final(self).interval() == old(self).interval(),
    {
        let root = copy_bytes(self.addresses.root_bytes());
        let n = self.addresses.len();
        self.addresses = AddressSpace::rebuild(root, n);
    }

    pub fn get_interval(&self) -> (r: u64)
        ensures
            r == self.interval(),
    {
        self.interval_seconds
    }

    /// Records a new sync interval and returns it.
    pub fn set_interval(&mut self, seconds: u64) -> (r: u64)
        ensures
            r == seconds,
            final(self).interval() == seconds,
            final(self).wf() == old(self).wf(),
            final(self).addresses() == old(self).addresses(),
            final(self).entries() == old(self).entries(),
            final(self).cursor() == old(self).cursor(),
            final(self).ledger() == old(self).ledger(),
            final(self).custodian() == old(self).custodian(),
    {
        self.interval_seconds = seconds;
        seconds
    }

    pub fn get_next_block(&self) -> (r: u64)
        ensures
            r == self.cursor(),
    {
        self.next_block
    }

    /// Moves the cursor to `block`.
    pub fn set_next_block(&mut self, block: u64)
        ensures
            final(self).cursor() == block,
            final(self).wf() == old(self).wf(),
            final(self).addresses() == old(self).addresses(),
            final(self).entries() == old(self).entries(),
            final(self).ledger() == old(self).ledger(),
            final(self).custodian() == old(self).custodian(),
            final(self).interval() == old(self).interval(),
    {
        self.next_block = block;
    }

    /// The ledger's principal bytes, if configured.
    pub fn ledger_principal(&self) -> (r: Option<Vec<u8>>)
        ensures
            bytes_view(r) == self.ledger(),
    {
        match &self.ledger {
            Some(b) => Some(copy_bytes(b)),
            None => None,
        }
    }

    /// The page to ask the ledger for next: none while no ledger is configured.
    pub fn sync_request(&self) -> (r: Option<QueryBlocksRequest>)
        ensures
            self.ledger() is None ==> r is None,
            self.ledger() is Some ==> r == Some(
                QueryBlocksRequest { start: self.cursor(), length: PAGE_LENGTH },
            ),
    {
        match &self.ledger {
            Some(_) => Some(QueryBlocksRequest { start: self.next_block, length: PAGE_LENGTH }),
            None => None,
        }
    }
    /// Whether a recorded operation touches a watched address.
    pub fn operation_matches(&self, op: &Operation) -> (r: bool)
        requires
            self.wf(),
        ensures
            r == op_matches(self.addresses(), *op),
    {
        match op {
            Operation::Approve(x) => self.addresses.contains(&x.from) || self.addresses.contains(
                &x.spender,
            ),
            Operation::Burn(x) => {
                if self.addresses.contains(&x.from) {
                    true
                } else {
                    match &x.spender {
                        Some(sp) => self.addresses.contains(sp),
                        None => false,
                    }
                }
            },
            Operation::Mint(x) => self.addresses.contains(&x.to),
            Operation::Transfer(x) => {
                if self.addresses.contains(&x.to) {
                    true
                } else {
                    match &x.spender {
                        Some(sp) => self.addresses.contains(sp),
                        None => false,
                    }
                }
            },
        }
    }

    /// Takes in a page of blocks that the ledger returned for a request
    /// starting at `start`: records each matching block under its absolute
    /// index unless already recorded, and moves the cursor past the page.
    pub fn ingest_blocks(&mut self, start: u64, blocks: Vec<Block>)
        requires
            old(self).wf(),
            start + blocks@.len() <= u64::MAX,
        ensures
            final(self).wf(),
            final(self).entries() == ingest(old(self).addresses(), old(self).entries(), start, blocks@),
            final(self).cursor() == start + blocks@.len(),
            final(self).addresses() == old(self).addresses(),
            final(self).ledger() == old(self).ledger(),
            final(self).custodian() == old(self).custodian(),
            final(self).interval() == old(self).interval(),
    {
        let ghost all = blocks@;
        let mut rest = blocks;
        let n = rest.len();
        let mut i: usize = 0;
        while i < n
            invariant
                self.wf(),
                self.addresses == old(self).addresses,
                self.ledger == old(self).ledger,
                self.custodian == old(self).custodian,
                self.interval_seconds == old(self).interval_seconds,
                n == all.len(),
                i <= n,
                start + n <= u64::MAX,
                rest@ == all.subrange(i as int, n as int),
                self.log.view() == ingest(self.addresses, old(self).log.view(), start, all.subrange(0, i as int)),
            decreases n - i,
        {
            let b = rest.remove(0);
            proof {
                assert(all.subrange(0, i + 1).drop_last() =~= all.subrange(0, i as int));
                assert(all.subrange(0, i + 1).last() == all[i as int]);
                assert(rest@ =~= all.subrange(i + 1, n as int));
            }
            let hit = match &b.transaction.operation {
                Some(op) => self.operation_matches(op),
                None => false,
            };
            if hit {
                let e = StoredTransactions::new(start + i as u64, b.transaction);
                self.log.insert_if_absent(e);
            }
            i = i + 1;
        }
        assert(all.subrange(0, n as int) =~= all);
        self.next_block = start + n as u64;
    }

    /// Marks every sweepable entry swept and returns, in log order, the
    /// transfers that move each one's amount to the custodian, tagged with
    /// its key. Fails with `ConfigurationError`, changing nothing, while the
    /// ledger or the custodian is not configured.
    pub fn sweep(&mut self) -> (r: Result<Vec<Icrc1TransferRequest>, VaultError>)
        requires
            old(self).wf(),
        ensures
            final(self).wf(),
            final(self).addresses() == old(self).addresses(),
            final(self).cursor() == old(self).cursor(),
            final(self).ledger() == old(self).ledger(),
            final(self).custodian() == old(self).custodian(),
            final(self).interval() == old(self).interval(),
            (old(self).ledger() is None || old(self).custodian() is None) ==> (r == Err::<
                Vec<Icrc1TransferRequest>,
                VaultError,
            >(VaultError::ConfigurationError) && final(self).entries() == old(self).entries()),
            (old(self).ledger() is Some && old(self).custodian() is Some) ==> (r matches Ok(reqs)
                && final(self).entries() == old(self).entries().map_values(
                |e: StoredTransactions| after_sweep(old(self).addresses(), e),
            ) && reqs@.len() == sweep_selection(old(self).addresses(), old(self).entries()).len()
                && forall|k: int|
                0 <= k < reqs@.len() ==> #[trigger] is_sweep_request(
                    reqs@[k],
                    sweep_selection(old(self).addresses(), old(self).entries())[k],
                    old(self).custodian()->0,
                )),
    {
        if self.ledger.is_none() {
            return Err(VaultError::ConfigurationError);
        }
        let custodian = match &self.custodian {
            Some(c) => copy_bytes(c),
            None => {
                return Err(VaultError::ConfigurationError);
            },
        };
        let ghost a = self.addresses;
        let ghost s = self.log.view();
        let n = self.log.len();
        let mut reqs: Vec<Icrc1TransferRequest> = Vec::new();
        let mut i: usize = 0;
        while i < n
            invariant
                self.wf(),
                self.addresses == a,
                self.ledger == old(self).ledger,
                self.custodian == old(self).custodian,
                self.interval_seconds == old(self).interval_seconds,
                self.next_block == old(self).next_block,
                s == old(self).log.view(),
                custodian@ == old(self).custodian()->0,
                n == s.len(),
                self.log.view().len() == n,
                i <= n,
                forall|j: int| 0 <= j < i ==> #[trigger] self.log.view()[j] == after_sweep(a, s[j]),
                forall|j: int| i <= j < n ==> #[trigger] self.log.view()[j] == s[j],
                reqs@.len() == sweep_selection(a, s.subrange(0, i as int)).len(),
                forall|k: int|
                    0 <= k < reqs@.len() ==> #[trigger] is_sweep_request(
                        reqs@[k],
                        sweep_selection(a, s.subrange(0, i as int))[k],
                        custodian@,
                    ),
            decreases n - i,
        {
            let e = self.log.at(i);
            assert(*e == s[i as int]);
            let req = match &e.operation {
                Some(Operation::Transfer(t)) => {
                    if e.sweep_status == SweepStatus::NotSwept && self.addresses.contains(&t.to) {
                        Some(
                            Icrc1TransferRequest {
                                to_owner: copy_bytes(&custodian),
                                to_subaccount: None,
                                fee: None,
                                memo: Some(key_to_memo(e.index)),
                                from_subaccount: Some(copy_bytes(&t.to)),
                                created_at_time: None,
                                amount: t.amount.e8s,
                            },
                        )
                    } else {
                        None
                    }
                },
                _ => None,
            };
            let ghost prev = reqs@;
            proof {
                assert(s.subrange(0, i + 1).drop_last() =~= s.subrange(0, i as int));
                assert(s.subrange(0, i + 1).last() == s[i as int]);
            }
            match req {
                Some(q) => {
                    reqs.push(q);
                    self.log.set_status_at(i, SweepStatus::Swept);
                    proof {
                        assert forall|k: int| 0 <= k < reqs@.len() implies #[trigger] is_sweep_request(
                            reqs@[k],
                            sweep_selection(a, s.subrange(0, i + 1))[k],
                            custodian@,
                        ) by {
                            if k < prev.len() {
                                assert(reqs@[k] == prev[k]);
                            }
                        }
                    }
                },
                None => {},
            }
            i = i + 1;
        }
        proof {
            assert(s.subrange(0, n as int) =~= s);
            assert(self.log.view() =~= s.map_values(|e: StoredTransactions| after_sweep(a, e)));
        }
        Ok(reqs)
    }

    /// The transfer that returns entry `key`'s full amount from its watched
    /// address to its spender. Fails with `ConfigurationError` while no
    /// ledger is configured, `NotFoundError` when no entry has the key, and
    /// `IneligibleError` unless the entry is a transfer to a watched address
    /// with a spender. Statuses are left as they are.
    pub fn refund(&self, key: u64) -> (r: Result<Icrc1TransferRequest, VaultError>)
        requires
            self.wf(),
        ensures
            self.ledger() is None ==> r == Err::<Icrc1TransferRequest, VaultError>(
                VaultError::ConfigurationError,
            ),
            self.ledger() is Some && !has_key(self.entries(), key) ==> r == Err::<
                Icrc1TransferRequest,
                VaultError,
            >(VaultError::NotFoundError),
            self.ledger() is Some ==> forall|i: int|
                0 <= i < self.entries().len() && #[trigger] self.entries()[i].index == key ==> (
                refundable(self.addresses(), self.entries()[i]) ==> (r matches Ok(q)
                    && is_refund_request(q, self.entries()[i]))) && (!refundable(
                    self.addresses(),
                    self.entries()[i],
                ) ==> r == Err::<Icrc1TransferRequest, VaultError>(VaultError::IneligibleError)),
    {
        if self.ledger.is_none() {
            return Err(VaultError::ConfigurationError);
        }
        let p = match self.log.find(key) {
            Some(p) => p,
            None => {
                return Err(VaultError::NotFoundError);
            },
        };
        let e = self.log.at(p);
        proof {
            let s = self.log.view();
            assert forall|i: int| 0 <= i < s.len() && #[trigger] s[i].index == key implies i
                == p by {
                if i < p {
                    assert(s[i].index < s[p as int].index);
                } else if i > p {
                    assert(s[p as int].index < s[i].index);
                }
            }
        }
        match &e.operation {
            Some(Operation::Transfer(t)) => {
                match &t.spender {
                    Some(sp) => {
                        if self.addresses.contains(&t.to) {
                            Ok(
                                Icrc1TransferRequest {
                                    to_owner: copy_bytes(sp),
                                    to_subaccount: None,
                                    fee: None,
                                    memo: None,
                                    from_subaccount: Some(copy_bytes(&t.to)),
                                    created_at_time: None,
                                    amount: t.amount.e8s,
                                },
                            )
                        } else {
                            Err(VaultError::IneligibleError)
                        }
                    },
                    None => Err(VaultError::IneligibleError),
                }
            },
            _ => Err(VaultError::IneligibleError),
        }
    }

    /// Takes back a transfer that failed: when its memo decodes to the key of
    /// an entry, that entry becomes `FailedToSweep`; otherwise nothing changes.
    pub fn transfer_failed(&mut self, req: &Icrc1TransferRequest)
        requires
            old(self).wf(),
        ensures
            final(self).wf(),
            final(self).addresses() == old(self).addresses(),
            final(self).cursor() == old(self).cursor(),
            final(self).ledger() == old(self).ledger(),
            final(self).custodian() == old(self).custodian(),
            final(self).interval() == old(self).interval(),
            failure_key(*req) is None ==> final(self).entries() == old(self).entries(),
            (failure_key(*req) matches Some(k) && !has_key(old(self).entries(), k))
                ==> final(self).entries() == old(self).entries(),
            forall|i: int|
                0 <= i < old(self).entries().len() && failure_key(*req) == Some(
                    #[trigger] old(self).entries()[i].index,
                ) ==> final(self).entries() == old(self).entries().update(
                    i,
                    StoredTransactions {
                        sweep_status: SweepStatus::FailedToSweep,
                        ..old(self).entries()[i]
                    },
                ),
    {
        let key = match &req.memo {
            Some(m) => memo_to_key(m),
            None => None,
        };
        let key = match key {
            Some(k) => k,
            None => {
                return;
            },
        };
        match self.log.find(key) {
            Some(p) => {
                proof {
                    let s = self.log.view();
                    assert forall|i: int| 0 <= i < s.len() && #[trigger] s[i].index == key implies i
                        == p by {
                        if i < p {
                            assert(s[i].index < s[p as int].index);
                        } else if i > p {
                            assert(s[p as int].index < s[i].index);
                        }
                    }
                }
                self.log.set_status_at(p, SweepStatus::FailedToSweep);
            },
            None => {},
        }
    }

    /// The number of log entries.
    pub fn get_transactions_count(&self) -> (r: u32)
        ensures
            r == self.entries().len() as u32,
    {
        self.log.len() as u32
    }

    /// The smallest key in the log, if any.
    pub fn get_oldest_block(&self) -> (r: Option<u64>)
        requires
            self.wf(),
        ensures
            self.entries().len() == 0 ==> r is None,
            self.entries().len() > 0 ==> r == Some(self.entries()[0].index),
    {
        self.log.oldest_key()
    }

    /// The most recent `up_to_count` entries (100 when not given), or all
    /// when there are no more, in ascending key order.
    pub fn list_transactions(&self, up_to_count: Option<u64>) -> (r: Vec<StoredTransactions>)
        requires
            self.wf(),
        ensures
            same_entries(
                r@,
                self.entries().subrange(
                    list_skip(self.entries().len(), list_limit(up_to_count)),
                    self.entries().len() as int,
                ),
            ),
    {
        let limit = match up_to_count {
            Some(c) => c,
            None => DEFAULT_LIST_LIMIT,
        };
        self.log.list(limit)
    }

    /// Removes every entry whose key is at most `up_to_index`, or whose time
    /// is at most `up_to_timestamp`, a threshold of zero or none being unset;
    /// returns the entries that remain.
    pub fn clear_transactions(&mut self, up_to_index: Option<u64>, up_to_timestamp: Option<Timestamp>) -> (r:
        Vec<StoredTransactions>)
        requires
            old(self).wf(),
        ensures
            final(self).wf(),
            final(self).entries() == kept(
                old(self).entries(),
                match up_to_index {
                    Some(i) => i,
                    None => 0,
                },
                match up_to_timestamp {
                    Some(t) => t.timestamp_nanos,
                    None => 0,
                },
            ),
            same_entries(r@, final(self).entries()),
            final(self).addresses() == old(self).addresses(),
            final(self).cursor() == old(self).cursor(),
            final(self).ledger() == old(self).ledger(),
            final(self).custodian() == old(self).custodian(),
            final(self).interval() == old(self).interval(),
    {
        self.log.purge(up_to_index, up_to_timestamp)
    }

    /// Puts back an entry kept across a restart, unless its key is present.
    pub fn restore_entry(&mut self, e: StoredTransactions)
        requires
            old(self).wf(),
        ensures
            final(self).wf(),
            final(self).entries() == insert_if_absent_spec(old(self).entries(), e),
            final(self).addresses() == old(self).addresses(),
            final(self).cursor() == old(self).cursor(),
            final(self).ledger() == old(self).ledger(),
            final(self).custodian() == old(self).custodian(),
            final(self).interval() == old(self).interval(),
    {
        self.log.insert_if_absent(e);
    }

    /// The custodian's principal bytes, if configured.
    pub fn custodian_principal(&self) -> (r: Option<Vec<u8>>)
        ensures
            bytes_view(r) == self.custodian(),
    {
        match &self.custodian {
            Some(b) => Some(copy_bytes(b)),
            None => None,
        }
    }

    /// The root identity's principal bytes.
    pub fn root_principal(&self) -> (r: Vec<u8>)
        requires
            self.wf(),
        ensures
            r@ == self.addresses().root(),
            r@.len() <= 29,
    {
        copy_bytes(self.addresses.root_bytes())
    }

    /// Copies of all entries, in ascending key order.
    pub fn transactions(&self) -> (r: Vec<StoredTransactions>)
        ensures
            same_entries(r@, self.entries()),
    {
        self.log.entries()
    }
}

/// The key that a failed transfer's memo names, if any.
pub open spec fn failure_key(req: Icrc1TransferRequest) -> Option<u64> {
    match req.memo {
        Some(m) => memo_key(m@),
        None => None,
    }
}

/// The memo of a sweep transfer decodes to the key of the entry it settles,
/// so a failure of that transfer is taken back to that entry.
pub proof fn law_sweep_memo_names_entry(
    r: Icrc1TransferRequest,
    e: StoredTransactions,
    custodian: Seq<u8>,
)
    requires
        is_sweep_request(r, e, custodian),
    ensures
        failure_key(r) == Some(e.index),
{
    crate::codec::law_memo_round_trip(e.index);
}

/// The limit that a listing uses: the one given, else the default.
pub open spec fn list_limit(up_to_count: Option<u64>) -> u64 {
    match up_to_count {
        Some(c) => c,
        None => DEFAULT_LIST_LIMIT,
    }
}

} // verus!
