//! Deterministic receiving addresses and the index of those registered.
use vstd::prelude::*;

verus! {

/// The 32-byte suffix that tells one sub-wallet of the root identity from another.
#[derive(Clone, Copy, Debug, PartialEq, Eq)]
pub struct Subaccount(pub [u8; 32]);

/// The subaccount of nonce `n`: its four big-endian bytes, right-aligned in
/// 32 zero bytes.
pub open spec fn subaccount_of(n: u32) -> Seq<u8> {
    Seq::new(28, |i: int| 0u8) + seq![(n >> 24u32) as u8, (n >> 16u32) as u8, (n >> 8u32) as u8, n as u8]
}

/// The raw account identifier that the ledger gives to `owner` with `subaccount`.
pub uninterp spec fn account_id_of(owner: Seq<u8>, subaccount: Seq<u8>) -> Seq<u8>;

/// Relies on ic_ledger_types::AccountIdentifier::new: the identifier is a
/// 32-byte array computed from the owner principal and the subaccount alone.
#[verifier::external_body]
fn derive_account_id(owner: &Vec<u8>, subaccount: &[u8; 32]) -> (r: Vec<u8>)
    requires
        owner@.len() <= 29,
    ensures
        r@ == account_id_of(owner@, subaccount@),
        r@.len() == 32,
{
    let principal = candid::Principal::from_slice(owner);
    let id = ic_ledger_types::AccountIdentifier::new(
        &principal,
        &ic_ledger_types::Subaccount(*subaccount),
    );
    id.as_ref().to_vec()
}

/// The lowercase hex digit of `d`.
pub open spec fn hex_digit(d: u8) -> char {
    seq!['0', '1', '2', '3', '4', '5', '6', '7', '8', '9', 'a', 'b', 'c', 'd', 'e', 'f'][d as int]
}

/// Two lowercase hex digits per byte, most significant first.
pub open spec fn hex_of(b: Seq<u8>) -> Seq<char>
    decreases b.len(),
{
    if b.len() == 0 {
        Seq::empty()
    } else {
        hex_of(b.drop_last()) + seq![hex_digit(b.last() / 16), hex_digit(b.last() % 16)]
    }
}

/// Relies on hex::encode: each byte becomes two lowercase hex digits, in order.
#[verifier::external_body]
fn encode_hex(b: &Vec<u8>) -> (r: String)
    ensures
        r@ == hex_of(b@),
{
    hex::encode(b)
}

/// A raw identifier in hex.
pub fn encode_hex_of(b: &Vec<u8>) -> (r: String)
    ensures
        r@ == hex_of(b@),
{
    encode_hex(b)
}

/// The subaccount of a nonce.
pub fn convert_to_subaccount(nonce: u32) -> (r: Subaccount)
    ensures
        r.0@ == subaccount_of(nonce),
{
    let mut a: [u8; 32] = [0u8; 32];
    a[28] = (nonce >> 24u32) as u8;
    a[29] = (nonce >> 16u32) as u8;
    a[30] = (nonce >> 8u32) as u8;
    a[31] = nonce as u8;
    assert(a@ =~= subaccount_of(nonce));
    Subaccount(a)
}

/// The addresses registered so far under one root identity: the one of
/// nonce `n` stands at position `n`.
pub struct AddressSpace {
    root: Vec<u8>,
    ids: Vec<Vec<u8>>,
}

/// The raw identifier of nonce `n` under `root`.
pub open spec fn address_of(root: Seq<u8>, n: u32) -> Seq<u8> {
    account_id_of(root, subaccount_of(n))
}

impl AddressSpace {
    /// The root identity's bytes.
    pub closed spec fn root(&self) -> Seq<u8> {
        self.root@
    }

    /// How many addresses are registered: the next nonce.
    pub closed spec fn count(&self) -> nat {
        self.ids@.len()
    }

    /// The raw identifier stored for nonce `n`.
    pub closed spec fn address_at(&self, n: u32) -> Seq<u8> {
        self.ids@[n as int]@
    }

    /// The root is a principal, and each position holds the address its
    /// nonce derives.
    pub closed spec fn wf(&self) -> bool {
        &&& self.root@.len() <= 29
        &&& self.ids@.len() <= u32::MAX
        &&& forall|n: int|
            0 <= n < self.ids@.len() ==> #[trigger] self.ids@[n]@ == address_of(
                self.root@,
                n as u32,
            )
    }

    /// `b` is the raw identifier of a registered address.
    pub open spec fn tracks(&self, b: Seq<u8>) -> bool {
        exists|n: u32| n < self.count() && #[trigger] address_of(self.root(), n) == b
    }

    /// An empty space under `root`.
    pub fn new(root: Vec<u8>) -> (r: AddressSpace)
        requires
            root@.len() <= 29,
        ensures
            r.wf(),
            r.root() == root@,
            r.count() == 0,
    {
        AddressSpace { root, ids: Vec::new() }
    }

    /// Re-derives the addresses of nonces `0..count` under `root`.
    pub fn rebuild(root: Vec<u8>, count: u32) -> (r: AddressSpace)
        requires
            root@.len() <= 29,
        ensures
            r.wf(),
            r.root() == root@,
            r.count() == count,
    {
        let mut space = AddressSpace::new(root);
        let mut i: u32 = 0;
        while i < count
            invariant
                space.wf(),
                space.root() == root@,
                space.count() == i,
                i <= count,
            decreases count - i,
        {
            space.register();
            i = i + 1;
        }
        space
    }

    /// Registers the address of the next nonce and returns its raw identifier.
    pub fn register(&mut self) -> (r: Vec<u8>)
        requires
            old(self).wf(),
            old(self).count() < u32::MAX,
        ensures
            final(self).wf(),
            final(self).root() == old(self).root(),
            final(self).count() == old(self).count() + 1,
            r@ == address_of(old(self).root(), old(self).count() as u32),
            forall|n: u32|
                n < old(self).count() ==> #[trigger] address_of(final(self).root(), n) == address_of(
                    old(self).root(),
                    n,
                ),
    {
        let n = self.ids.len() as u32;
        let sub = convert_to_subaccount(n);
        let id = derive_account_id(&self.root, &sub.0);
        let out = crate::types::copy_bytes(&id);
        self.ids.push(id);
        proof {
            assert forall|m: int| 0 <= m < self.ids@.len() implies #[trigger] self.ids@[m]@
                == address_of(self.root@, m as u32) by {
                if m < n {
                    assert(old(self).ids@[m] == self.ids@[m]);
                }
            }
        }
        out
    }

    /// Whether `b` is the raw identifier of a registered address; only a
    /// 32-byte input can be.
    pub fn contains(&self, b: &Vec<u8>) -> (r: bool)
        requires
            self.wf(),
        ensures
            r == (b@.len() == 32 && self.tracks(b@)),
    {
        if b.len() != 32 {
            return false;
        }
        let mut i: usize = 0;
        while i < self.ids.len()
            invariant
                self.wf(),
                b@.len() == 32,
                i <= self.ids@.len(),
                forall|m: u32| m < i ==> address_of(self.root(), m) != b@,
            decreases self.ids@.len() - i,
        {
            if bytes_equal(&self.ids[i], b) {
                assert(address_of(self.root(), i as u32) == b@);
                return true;
            }
            i = i + 1;
        }
        proof {
            assert forall|m: u32| m < self.count() implies #[trigger] address_of(self.root(), m)
                != b@ by {}
        }
        false
    }

    /// The hex identifier of the address of `nonce`, if it is registered.
    pub fn lookup(&self, nonce: u32) -> (r: Option<String>)
        requires
            self.wf(),
        ensures
            nonce < self.count() ==> (r matches Some(s) && s@ == hex_of(address_of(self.root(), nonce))),
            nonce >= self.count() ==> r is None,
    {
        if (nonce as usize) < self.ids.len() {
            Some(encode_hex(&self.ids[nonce as usize]))
        } else {
            None
        }
    }

    /// The number of registered addresses.
    pub fn len(&self) -> (r: u32)
        requires
            self.wf(),
        ensures
            r == self.count(),
    {
        self.ids.len() as u32
    }

    /// The root identity's bytes.
    pub fn root_bytes(&self) -> (r: &Vec<u8>)
        requires
            self.wf(),
        ensures
            r@ == self.root(),
            r@.len() <= 29,
    {
        &self.root
    }
}

/// Byte-wise equality of two byte strings.
fn bytes_equal(a: &Vec<u8>, b: &Vec<u8>) -> (r: bool)
    ensures
        r == (a@ == b@),
{
    if a.len() != b.len() {
        return false;
    }
    let mut i: usize = 0;
    while i < a.len()
        invariant
            a@.len() == b@.len(),
            i <= a@.len(),
            forall|j: int| 0 <= j < i ==> a@[j] == b@[j],
        decreases a@.len() - i,
    {
        if a[i] != b[i] {
            return false;
        }
        i = i + 1;
    }
    assert(a@ =~= b@);
    true
}

/// Derivation is pure: two well-formed spaces under the same root with the
/// same count hold the same addresses, so rebuilding gives back what
/// registering built.
pub proof fn law_derivation_is_pure(a: &AddressSpace, b: &AddressSpace, n: u32)
    requires
        a.wf(),
        b.wf(),
        a.root() == b.root(),
        a.count() == b.count(),
    ensures
        forall|b0: Seq<u8>| a.tracks(b0) == b.tracks(b0),
        n < a.count() ==> a.address_at(n) == b.address_at(n),
        n < a.count() ==> a.address_at(n) == address_of(a.root(), n),
{
}

} // verus!
