//! World state: accounts by address, kept in address order, and the
//! canonical state root.

pub mod account;

use vstd::prelude::*;
use vstd::utf8::encode_utf8;

use crate::block::Capability;
use crate::crypto::blake3;
use crate::crypto::blake3_digest;
use crate::state::account::metadata_error;
use crate::state::account::metadata_size;
use crate::state::account::Account;
use crate::state::account::AccountError;
use crate::text::bytes_less;
use crate::text::bytes_lt;
use crate::text::le_u64;
use crate::text::lemma_bytes_lt_irreflexive;
use crate::text::lemma_bytes_lt_total;
use crate::text::lemma_bytes_lt_transitive;
use crate::text::lemma_le_u64_injective;
use crate::text::lemma_ascii_byte_len;
use crate::text::all_ascii;
use crate::text::push_bytes;
use crate::text::push_le_u64;
use crate::text::push_str;
use crate::text::push_str_bytes;
use crate::text::str_to_string;
use crate::text::string_from_chars;

verus! {

pub const WORLD_STATE_HASH_NAMESPACE: &'static str = "AOXC/STATE/WORLD_STATE";

pub const WORLD_STATE_HASH_VERSION: u8 = 1;

/// World-state errors.
#[derive(Debug, Clone, PartialEq, Eq, Structural)]
pub enum WorldStateError {
    Account(AccountError),
    CapabilityEncodingFailed,
}

impl WorldStateError {
    pub open spec fn message_text(&self) -> Seq<char> {
        match self {
            WorldStateError::Account(e) => "world-state account error: "@ + e.message_text(),
            WorldStateError::CapabilityEncodingFailed => "world-state capability encoding failed"@,
        }
    }

    /// Human-readable description of the error.
    pub fn message(&self) -> (r: String)
        ensures
            r@ == self.message_text(),
    {
        match self {
            WorldStateError::Account(e) => {
                let inner = e.message();
                let mut out: Vec<char> = Vec::new();
                push_str(&mut out, "world-state account error: ");
                push_str(&mut out, inner.as_str());
                string_from_chars(&out)
            },
            WorldStateError::CapabilityEncodingFailed => str_to_string("world-state capability encoding failed"),
        }
    }
}

/// Addresses in strictly increasing byte order.
pub open spec fn addresses_sorted(s: Seq<Seq<u8>>) -> bool {
    forall|i: int, j: int| 0 <= i < j < s.len() ==> bytes_lt(#[trigger] s[i], #[trigger] s[j])
}

/// The account stored under `a` in the rows `addrs`/`accts`, if any.
pub open spec fn account_at(addrs: Seq<Seq<u8>>, accts: Seq<Account>, a: Seq<u8>) -> Option<Account> {
    if addrs.contains(a) {
        Some(accts[addrs.index_of(a)])
    } else {
        None
    }
}

proof fn lemma_account_at(addrs: Seq<Seq<u8>>, accts: Seq<Account>, i: int)
    requires
        addresses_sorted(addrs),
        0 <= i < addrs.len(),
    ensures
        account_at(addrs, accts, addrs[i]) == Some(accts[i]),
{
    assert(addrs.contains(addrs[i]));
    let j = addrs.index_of(addrs[i]);
    lemma_bytes_lt_irreflexive(addrs[i]);
    if j < i {
        assert(bytes_lt(addrs[j], addrs[i]));
    } else if i < j {
        assert(bytes_lt(addrs[i], addrs[j]));
    }
}

/// The JSON text of a capability (a quoted variant name).
pub open spec fn capability_json(c: Capability) -> Seq<u8> {
    encode_utf8("\""@ + c.name() + "\""@)
}

/// A length-prefixed, terminated field: length (little-endian `u64`), the
/// bytes, then `0xFF`.
pub open spec fn framed(b: Seq<u8>) -> Seq<u8> {
    le_u64(b.len() as u64) + b + seq![0xFFu8]
}

/// The hashed fields of one account.
pub open spec fn account_fields(address: Seq<u8>, a: Account) -> Seq<u8> {
    framed(address) + framed(le_u64(a.nonce)) + framed(capability_json(a.capability)) + framed(
        le_u64(a.energy),
    ) + match a.metadata {
        Some(m) => framed(seq![1u8]) + framed(m@),
        None => framed(seq![0u8]),
    }
}

pub open spec fn accounts_fields(addrs: Seq<Seq<u8>>, accts: Seq<Account>) -> Seq<u8>
    decreases addrs.len(),
{
    if addrs.len() == 0 || accts.len() == 0 {
        seq![]
    } else {
        accounts_fields(addrs.drop_last(), accts.drop_last()) + account_fields(addrs.last(), accts.last())
    }
}

/// The bytes hashed for the state root.
pub open spec fn root_message(addrs: Seq<Seq<u8>>, accts: Seq<Account>) -> Seq<u8> {
    encode_utf8(WORLD_STATE_HASH_NAMESPACE@) + seq![0u8, WORLD_STATE_HASH_VERSION] + framed(
        le_u64(addrs.len() as u64),
    ) + accounts_fields(addrs, accts)
}

/// The first account (in address order, from `i`) whose metadata is too
/// large, as an error.
pub open spec fn first_account_error(accts: Seq<Account>, i: int) -> Option<WorldStateError>
    decreases accts.len() - i,
{
    if i < 0 || i >= accts.len() {
        None
    } else if metadata_error(metadata_size(accts[i])) is Some {
        Some(WorldStateError::Account(metadata_error(metadata_size(accts[i]))->0))
    } else {
        first_account_error(accts, i + 1)
    }
}

fn push_framed(out: &mut Vec<u8>, b: &[u8])
    ensures
        final(out)@ == old(out)@ + framed(b@),
{
    push_le_u64(out, b.len() as u64);
    push_bytes(out, b);
    out.push(0xFFu8);
    assert(final(out)@ =~= old(out)@ + framed(b@));
}

/// Appends the hashed fields of one account.
fn push_account_fields(m: &mut Vec<u8>, address: &[u8; 32], acc: &Account)
    ensures
        final(m)@ == old(m)@ + account_fields(address@, *acc),
{
    push_framed(m, address);
    let mut field: Vec<u8> = Vec::new();
    push_le_u64(&mut field, acc.nonce);
    push_framed(m, field.as_slice());
    let mut cap: Vec<u8> = Vec::new();
    push_str_bytes(&mut cap, "\"");
    push_str_bytes(&mut cap, acc.capability.as_str());
    push_str_bytes(&mut cap, "\"");
    proof {
        crate::text::lemma_encode_utf8_append("\""@, acc.capability.name());
        crate::text::lemma_encode_utf8_append("\""@ + acc.capability.name(), "\""@);
    }
    assert(cap@ =~= capability_json(acc.capability));
    push_framed(m, cap.as_slice());
    let mut energy: Vec<u8> = Vec::new();
    push_le_u64(&mut energy, acc.energy);
    push_framed(m, energy.as_slice());
    match &acc.metadata {
        Some(md) => {
            push_framed(m, &[1u8]);
            push_framed(m, md.as_slice());
        },
        None => {
            push_framed(m, &[0u8]);
        },
    }
    assert(final(m)@ =~= old(m)@ + account_fields(address@, *acc));
}

/// Accounts by address.
#[derive(Debug, Clone)]
pub struct WorldState {
    addresses: Vec<[u8; 32]>,
    accounts: Vec<Account>,
}

impl WorldState {
    pub closed spec fn addrs(&self) -> Seq<Seq<u8>> {
        self.addresses@.map_values(|a: [u8; 32]| a@)
    }

    pub closed spec fn accts(&self) -> Seq<Account> {
        self.accounts@
    }

    /// One account per address, addresses strictly increasing.
    pub open spec fn wf(&self) -> bool {
        &&& self.addrs().len() == self.accts().len()
        &&& addresses_sorted(self.addrs())
    }

    /// The account at an address, if any.
    pub open spec fn find(&self, a: Seq<u8>) -> Option<Account> {
        account_at(self.addrs(), self.accts(), a)
    }

    /// An empty state.
    pub fn new() -> (r: Self)
        ensures
            r.wf(),
            r.addrs().len() == 0,
    {
        WorldState { addresses: Vec::new(), accounts: Vec::new() }
    }

    /// Number of accounts.
    pub fn len(&self) -> (r: usize)
        ensures
            r == self.addrs().len(),
    {
        self.addresses.len()
    }

    /// Whether there is no account.
    pub fn is_empty(&self) -> (r: bool)
        ensures
            r == (self.addrs().len() == 0),
    {
        self.addresses.len() == 0
    }

    /// Where an address is, or where it would be inserted.
    fn locate(&self, address: &[u8; 32]) -> (r: (usize, bool))
        requires
            self.wf(),
        ensures
            r.0 <= self.addrs().len(),
            r.1 ==> r.0 < self.addrs().len() && self.addrs()[r.0 as int] == address@,
            !r.1 ==> forall|i: int| 0 <= i < self.addrs().len() ==> (i < r.0 ==> bytes_lt(#[trigger] self.addrs()[i], address@)) && (r.0 <= i ==> bytes_lt(address@, self.addrs()[i])),
            !r.1 ==> !self.addrs().contains(address@),
    {
        let ghost ks = self.addrs();
        let n = self.addresses.len();
        let mut i: usize = 0;
        while i < n
            invariant
                ks == self.addrs(),
                n == ks.len(),
                addresses_sorted(ks),
                i <= n,
                forall|j: int| 0 <= j < i ==> bytes_lt(#[trigger] ks[j], address@),
            decreases n - i,
        {
            let ai = self.addresses[i];
            assert(ai@ == ks[i as int]);
            if crate::text::bytes_eq(&ai, address) {
                return (i, true);
            }
            if bytes_less(address, &ai) {
                proof {
                    assert forall|j: int| 0 <= j < n implies (j < i ==> bytes_lt(#[trigger] ks[j], address@)) && (i <= j ==> bytes_lt(address@, ks[j])) by {
                        if i < j {
                            lemma_bytes_lt_transitive(address@, ks[i as int], ks[j]);
                        }
                    }
                    lemma_bytes_lt_irreflexive(address@);
                    if ks.contains(address@) {
                        let j = choose|j: int| 0 <= j < n && ks[j] == address@;
                        assert(j < i ==> bytes_lt(ks[j], address@));
                    }
                }
                return (i, false);
            }
            proof {
                lemma_bytes_lt_total(ai@, address@);
            }
            i += 1;
        }
        proof {
            lemma_bytes_lt_irreflexive(address@);
            if ks.contains(address@) {
                let j = choose|j: int| 0 <= j < n && ks[j] == address@;
                assert(bytes_lt(ks[j], address@));
            }
        }
        (n, false)
    }

    /// The account at an address.
    pub fn get(&self, address: &[u8; 32]) -> (r: Option<&Account>)
        requires
            self.wf(),
        ensures
            match r {
                Some(a) => self.find(address@) == Some(*a),
                None => self.find(address@) is None,
            },
    {
        let (i, found) = self.locate(address);
        if found {
            proof {
                lemma_account_at(self.addrs(), self.accts(), i as int);
            }
            Some(&self.accounts[i])
        } else {
            None
        }
    }

    /// Mutable access to the account at an address; the state afterwards
    /// holds whatever the caller leaves in it.
    pub fn get_mut(&mut self, address: &[u8; 32]) -> (r: Option<&mut Account>)
        requires
            old(self).wf(),
        ensures
            match r {
                Some(a) => old(self).find(address@) == Some(*a) && exists|i: int|
                    0 <= i < old(self).addrs().len() && old(self).addrs()[i] == address@
                        && final(self).addrs() == old(self).addrs() && #[trigger] final(self).accts()
                        == old(self).accts().update(i, *final(a)),
                None => old(self).find(address@) is None && *final(self) == *old(self),
            },
    {
        let ghost ks = self.addrs();
        let ghost accs = self.accts();
        let (i, found) = self.locate(address);
        if found {
            proof {
                lemma_account_at(ks, accs, i as int);
            }
            Some(&mut self.accounts[i])
        } else {
            None
        }
    }

    /// Mutable access to the account at an address, creating a fresh
    /// account with `capability` there first when there is none.
    pub fn get_or_create(&mut self, address: [u8; 32], capability: Capability) -> (r: &mut Account)
        requires
            old(self).wf(),
        ensures
            exists|i: int|
                #![trigger final(self).addrs()[i]]
                #![trigger old(self).accts().update(i, *final(r))]
                #![trigger old(self).accts().insert(i, Account::new_spec(capability))]
                0 <= i < final(self).addrs().len() && final(self).addrs()[i] == address@ && match old(
                    self,
                ).find(address@) {
                    Some(a) => *r == a && final(self).addrs() == old(self).addrs() && final(self).accts()
                        == old(self).accts().update(i, *final(r)),
                    None => *r == Account::new_spec(capability) && final(self).addrs() == old(self).addrs().insert(
                        i,
                        address@,
                    ) && final(self).accts() == old(self).accts().insert(i, Account::new_spec(capability)).update(
                        i,
                        *final(r),
                    ),
                },
    {
        let ghost ks = self.addrs();
        let ghost accs = self.accts();
        let (p, found) = self.locate(&address);
        if found {
            proof {
                lemma_account_at(ks, accs, p as int);
            }
        } else {
            self.insert_row(p, address, Account::new(capability));
            assert(self.addrs()[p as int] == address@);
        }
        assert(self.addrs()[p as int] == address@);
        &mut self.accounts[p]
    }

    /// Whether an address has an account.
    pub fn contains(&self, address: &[u8; 32]) -> (r: bool)
        requires
            self.wf(),
        ensures
            r == (self.find(address@) is Some),
    {
        let (_, found) = self.locate(address);
        found
    }

    /// Inserts a row at its sorted position.
    fn insert_row(&mut self, p: usize, address: [u8; 32], account: Account)
        requires
            old(self).wf(),
            p <= old(self).addrs().len(),
            forall|i: int| 0 <= i < p ==> bytes_lt(#[trigger] old(self).addrs()[i], address@),
            forall|i: int| p <= i < old(self).addrs().len() ==> bytes_lt(address@, #[trigger] old(self).addrs()[i]),
        ensures
            final(self).wf(),
            final(self).addrs() == old(self).addrs().insert(p as int, address@),
            final(self).accts() == old(self).accts().insert(p as int, account),
    {
        let ghost ks = self.addrs();
        self.addresses.insert(p, address);
        self.accounts.insert(p, account);
        assert(self.addrs() =~= ks.insert(p as int, address@));
        let ghost nks = self.addrs();
        assert forall|i: int, j: int| 0 <= i < j < nks.len() implies bytes_lt(#[trigger] nks[i], #[trigger] nks[j]) by {
            if j < p {
                assert(nks[i] == ks[i] && nks[j] == ks[j]);
            } else if j == p {
                assert(nks[i] == ks[i]);
            } else if i < p {
                assert(nks[i] == ks[i] && nks[j] == ks[j - 1]);
            } else if i == p {
                assert(nks[j] == ks[j - 1]);
            } else {
                assert(nks[i] == ks[i - 1] && nks[j] == ks[j - 1]);
            }
        }
    }

    /// Stores a valid account at an address, returning the account it
    /// replaces; an invalid account is refused and nothing changes.
    pub fn insert(&mut self, address: [u8; 32], account: Account) -> (r: Result<Option<Account>, WorldStateError>)
        requires
            old(self).wf(),
        ensures
            final(self).wf(),
            match metadata_error(metadata_size(account)) {
                Some(e) => r == Err::<Option<Account>, WorldStateError>(WorldStateError::Account(e))
                    && *final(self) == *old(self),
                None => r == Ok::<Option<Account>, WorldStateError>(old(self).find(address@)) && forall|k: Seq<u8>|
                    #[trigger] final(self).find(k) == if k == address@ {
                        Some(account)
                    } else {
                        old(self).find(k)
                    },
            },
    {
        if let Err(e) = account.validate() {
            return Err(WorldStateError::Account(e));
        }
        let ghost ks = self.addrs();
        let ghost accs = self.accts();
        let (p, found) = self.locate(&address);
        if found {
            proof {
                lemma_account_at(ks, accs, p as int);
            }
            let previous = self.accounts.remove(p);
            self.accounts.insert(p, account);
            proof {
                assert(self.accts() =~= accs.update(p as int, account));
                assert forall|k: Seq<u8>| #[trigger] self.find(k) == if k == address@ {
                    Some(account)
                } else {
                    account_at(ks, accs, k)
                } by {
                    lemma_account_at(ks, self.accts(), p as int);
                    if k != address@ && ks.contains(k) {
                        let i = choose|i: int| 0 <= i < ks.len() && ks[i] == k;
                        lemma_account_at(ks, accs, i);
                        lemma_account_at(ks, self.accts(), i);
                    }
                }
            }
            Ok(Some(previous))
        } else {
            self.insert_row(p, address, account);
            proof {
                let nks = self.addrs();
                let nas = self.accts();
                assert forall|k: Seq<u8>| #[trigger] self.find(k) == if k == address@ {
                    Some(account)
                } else {
                    account_at(ks, accs, k)
                } by {
                    assert(nks[p as int] == address@ && nas[p as int] == account);
                    if k == address@ {
                        lemma_account_at(nks, nas, p as int);
                    } else if ks.contains(k) {
                        let i = choose|i: int| 0 <= i < ks.len() && ks[i] == k;
                        lemma_account_at(ks, accs, i);
                        if i < p {
                            assert(nks[i] == k && nas[i] == accs[i]);
                            lemma_account_at(nks, nas, i);
                        } else {
                            assert(nks[i + 1] == k && nas[i + 1] == accs[i]);
                            lemma_account_at(nks, nas, i + 1);
                        }
                    } else if nks.contains(k) {
                        let j = choose|j: int| 0 <= j < nks.len() && nks[j] == k;
                        if j < p {
                            assert(ks[j] == k);
                        } else if j > p {
                            assert(ks[j - 1] == k);
                        }
                    }
                }
            }
            Ok(None)
        }
    }

    /// Removes the account at an address, returning it.
    pub fn remove(&mut self, address: &[u8; 32]) -> (r: Option<Account>)
        requires
            old(self).wf(),
        ensures
            final(self).wf(),
            r == old(self).find(address@),
            forall|k: Seq<u8>| #[trigger] final(self).find(k) == if k == address@ {
                None
            } else {
                old(self).find(k)
            },
    {
        let ghost ks = self.addrs();
        let ghost accs = self.accts();
        let (p, found) = self.locate(address);
        if !found {
            assert forall|k: Seq<u8>| #[trigger] self.find(k) == if k == address@ {
                None
            } else {
                account_at(ks, accs, k)
            } by {}
            return None;
        }
        proof {
            lemma_account_at(ks, accs, p as int);
        }
        self.addresses.remove(p);
        let removed = self.accounts.remove(p);
        proof {
            let nks = self.addrs();
            let nas = self.accts();
            assert(nks =~= ks.remove(p as int));
            assert(nas =~= accs.remove(p as int));
            assert forall|i: int, j: int| 0 <= i < j < nks.len() implies bytes_lt(#[trigger] nks[i], #[trigger] nks[j]) by {
                let i0 = if i < p { i } else { i + 1 };
                let j0 = if j < p { j } else { j + 1 };
                assert(nks[i] == ks[i0] && nks[j] == ks[j0]);
            }
            assert forall|k: Seq<u8>| #[trigger] self.find(k) == if k == address@ {
                None
            } else {
                account_at(ks, accs, k)
            } by {
                if nks.contains(k) {
                    let j = choose|j: int| 0 <= j < nks.len() && nks[j] == k;
                    let j0 = if j < p { j } else { j + 1 };
                    assert(ks[j0] == k && nas[j] == accs[j0]);
                    lemma_account_at(nks, nas, j);
                    lemma_account_at(ks, accs, j0);
                    lemma_bytes_lt_irreflexive(k);
                    if k == address@ {
                        if j0 < p {
                            assert(bytes_lt(ks[j0], ks[p as int]));
                        } else {
                            assert(bytes_lt(ks[p as int], ks[j0]));
                        }
                    }
                } else if k != address@ && ks.contains(k) {
                    let i = choose|i: int| 0 <= i < ks.len() && ks[i] == k;
                    assert(i != p);
                    if i < p {
                        assert(nks[i] == k);
                    } else {
                        assert(nks[i - 1] == k);
                    }
                }
            }
        }
        Some(removed)
    }

    /// Checks every account, reporting the first failure in address order.
    pub fn validate(&self) -> (r: Result<(), WorldStateError>)
        requires
            self.wf(),
        ensures
            r == match first_account_error(self.accts(), 0) {
                Some(e) => Err(e),
                None => Ok::<(), WorldStateError>(()),
            },
    {
        let ghost accs = self.accts();
        let n = self.accounts.len();
        let mut i: usize = 0;
        while i < n
            invariant
                accs == self.accts(),
                n == accs.len(),
                i <= n,
                first_account_error(accs, 0) == first_account_error(accs, i as int),
            decreases n - i,
        {
            if let Err(e) = self.accounts[i].validate() {
                return Err(WorldStateError::Account(e));
            }
            i += 1;
        }
        Ok(())
    }

    /// The state root of a valid state: BLAKE3 of the framed account fields
    /// in address order.
    #[verifier::rlimit(40)]
    pub fn try_root_hash(&self) -> (r: Result<[u8; 32], WorldStateError>)
        requires
            self.wf(),
        ensures
            match first_account_error(self.accts(), 0) {
                Some(e) => r == Err::<[u8; 32], WorldStateError>(e),
                None => r is Ok && r->Ok_0@ == blake3(root_message(self.addrs(), self.accts())),
            },
    {
        if let Err(e) = self.validate() {
            return Err(e);
        }
        let ghost ks = self.addrs();
        let ghost accs = self.accts();
        let mut m: Vec<u8> = Vec::new();
        push_str_bytes(&mut m, WORLD_STATE_HASH_NAMESPACE);
        m.push(0u8);
        m.push(WORLD_STATE_HASH_VERSION);
        let n = self.addresses.len();
        let mut count: Vec<u8> = Vec::new();
        push_le_u64(&mut count, n as u64);
        push_framed(&mut m, count.as_slice());
        let ghost head = m@;
        let mut i: usize = 0;
        while i < n
            invariant
                ks == self.addrs(),
                accs == self.accts(),
                n == ks.len(),
                n == accs.len(),
                i <= n,
                m@ == head + accounts_fields(ks.take(i as int), accs.take(i as int)),
            decreases n - i,
        {
            push_account_fields(&mut m, &self.addresses[i], &self.accounts[i]);
            proof {
                assert(ks.take(i + 1 as int).drop_last() =~= ks.take(i as int));
                assert(accs.take(i + 1 as int).drop_last() =~= accs.take(i as int));
                assert(ks[i as int] == self.addresses@[i as int]@);
                assert(ks.take(i + 1 as int).last() == ks[i as int]);
                assert(accs.take(i + 1 as int).last() == accs[i as int]);
            }
            i += 1;
        }
        assert(ks.take(n as int) =~= ks);
        assert(accs.take(n as int) =~= accs);
        assert(m@ =~= root_message(ks, accs));
        Ok(blake3_digest(m.as_slice()))
    }

    /// The state root of a valid state.
    pub fn root_hash(&self) -> (r: [u8; 32])
        requires
            self.wf(),
            first_account_error(self.accts(), 0) is None,
        ensures
            r@ == blake3(root_message(self.addrs(), self.accts())),
    {
        match self.try_root_hash() {
            Ok(h) => h,
            Err(_) => [0u8; 32],
        }
    }

    /// The root of an empty state.
    pub fn empty_root_hash() -> (r: [u8; 32])
        ensures
            r@ == blake3(root_message(Seq::empty(), Seq::empty())),
    {
        let s = WorldState::new();
        assert(s.addrs() =~= Seq::<Seq<u8>>::empty());
        assert(s.accts() =~= Seq::<Account>::empty());
        s.root_hash()
    }
}

impl Default for WorldState {
    fn default() -> (r: Self)
        ensures
            r.wf(),
            r.addrs().len() == 0,
    {
        WorldState::new()
    }
}

/// Two strictly sorted address lists with the same members are equal.
proof fn lemma_sorted_same_members(s1: Seq<Seq<u8>>, s2: Seq<Seq<u8>>)
    requires
        addresses_sorted(s1),
        addresses_sorted(s2),
        forall|x: Seq<u8>| s1.contains(x) <==> s2.contains(x),
    ensures
        s1 == s2,
    decreases s1.len() + s2.len(),
{
    if s1.len() == 0 {
        if s2.len() > 0 {
            assert(s2.contains(s2[0]));
        }
        assert(s1 =~= s2);
    } else if s2.len() == 0 {
        assert(s1.contains(s1[0]));
    } else {
        let a = s1[0];
        let b = s2[0];
        assert(s1.contains(a));
        assert(s2.contains(b));
        let j = choose|j: int| 0 <= j < s2.len() && s2[j] == a;
        let i = choose|i: int| 0 <= i < s1.len() && s1[i] == b;
        if a != b {
            assert(j > 0 && i > 0);
            assert(bytes_lt(b, a));
            assert(bytes_lt(a, b));
            lemma_bytes_lt_transitive(a, b, a);
            lemma_bytes_lt_irreflexive(a);
        }
        let t1 = s1.drop_first();
        let t2 = s2.drop_first();
        assert(addresses_sorted(t1)) by {
            assert forall|x: int, y: int| 0 <= x < y < t1.len() implies bytes_lt(#[trigger] t1[x], #[trigger] t1[y]) by {
                assert(t1[x] == s1[x + 1] && t1[y] == s1[y + 1]);
            }
        }
        assert(addresses_sorted(t2)) by {
            assert forall|x: int, y: int| 0 <= x < y < t2.len() implies bytes_lt(#[trigger] t2[x], #[trigger] t2[y]) by {
                assert(t2[x] == s2[x + 1] && t2[y] == s2[y + 1]);
            }
        }
        assert forall|x: Seq<u8>| t1.contains(x) <==> t2.contains(x) by {
            if t1.contains(x) {
                let k = choose|k: int| 0 <= k < t1.len() && t1[k] == x;
                assert(s1[k + 1] == x);
                assert(bytes_lt(a, x));
                lemma_bytes_lt_irreflexive(a);
                assert(s2.contains(x));
                let m = choose|m: int| 0 <= m < s2.len() && s2[m] == x;
                assert(m != 0);
                assert(t2[m - 1] == x);
            }
            if t2.contains(x) {
                let k = choose|k: int| 0 <= k < t2.len() && t2[k] == x;
                assert(s2[k + 1] == x);
                assert(bytes_lt(b, x));
                lemma_bytes_lt_irreflexive(b);
                assert(s1.contains(x));
                let m = choose|m: int| 0 <= m < s1.len() && s1[m] == x;
                assert(m != 0);
                assert(t1[m - 1] == x);
            }
        }
        lemma_sorted_same_members(t1, t2);
        assert(s1 =~= seq![a] + t1);
        assert(s2 =~= seq![b] + t2);
    }
}

/// The state root depends only on which account sits at which address: two
/// well-formed states that agree on every lookup hold the same rows, so
/// they hash the same message.
pub proof fn law_root_depends_only_on_contents(a: WorldState, b: WorldState)
    requires
        a.wf(),
        b.wf(),
        forall|k: Seq<u8>| #[trigger] a.find(k) == b.find(k),
    ensures
        a.addrs() == b.addrs(),
        a.accts() == b.accts(),
        root_message(a.addrs(), a.accts()) == root_message(b.addrs(), b.accts()),
{
    assert forall|x: Seq<u8>| a.addrs().contains(x) <==> b.addrs().contains(x) by {
        assert(a.find(x) == b.find(x));
    }
    lemma_sorted_same_members(a.addrs(), b.addrs());
    assert forall|i: int| 0 <= i < a.accts().len() implies a.accts()[i] == b.accts()[i] by {
        lemma_account_at(a.addrs(), a.accts(), i);
        lemma_account_at(b.addrs(), b.accts(), i);
        assert(a.find(a.addrs()[i]) == b.find(a.addrs()[i]));
    }
    assert(a.accts() =~= b.accts());
}

/// The hashed metadata fields of an account: a presence flag, then the bytes.
spec fn meta_fields(a: Account) -> Seq<u8> {
    match a.metadata {
        Some(m) => framed(seq![1u8]) + framed(m@),
        None => framed(seq![0u8]),
    }
}

/// The account fields of `accts` and of `accts` with account `i` replaced
/// by `b` share the bytes before and after that account's fields.
proof fn lemma_fields_update(addrs: Seq<Seq<u8>>, accts: Seq<Account>, i: int, b: Account) -> (r: (
    Seq<u8>,
    Seq<u8>,
))
    requires
        addrs.len() == accts.len(),
        0 <= i < accts.len(),
    ensures
        accounts_fields(addrs, accts) == r.0 + account_fields(addrs[i], accts[i]) + r.1,
        accounts_fields(addrs, accts.update(i, b)) == r.0 + account_fields(addrs[i], b) + r.1,
    decreases accts.len(),
{
    let upd = accts.update(i, b);
    let n = accts.len() - 1;
    assert(upd.len() == accts.len());
    if i == n {
        assert(upd.drop_last() =~= accts.drop_last());
        assert(upd.last() == b);
        let p = accounts_fields(addrs.drop_last(), accts.drop_last());
        assert(accounts_fields(addrs, accts) =~= p + account_fields(addrs[i], accts[i]) + Seq::<u8>::empty());
        assert(accounts_fields(addrs, upd) =~= p + account_fields(addrs[i], b) + Seq::<u8>::empty());
        (p, Seq::empty())
    } else {
        let (p, q0) = lemma_fields_update(addrs.drop_last(), accts.drop_last(), i, b);
        assert(upd.drop_last() =~= accts.drop_last().update(i, b));
        assert(upd.last() == accts.last());
        assert(addrs.drop_last()[i] == addrs[i]);
        assert(accts.drop_last()[i] == accts[i]);
        let tail = account_fields(addrs.last(), accts.last());
        assert(accounts_fields(addrs, accts) =~= p + account_fields(addrs[i], accts[i]) + (q0 + tail));
        assert(accounts_fields(addrs, upd) =~= p + account_fields(addrs[i], b) + (q0 + tail));
        (p, q0 + tail)
    }
}

/// The middle part of `x + y + z` is `y`.
proof fn lemma_middle(x: Seq<u8>, y: Seq<u8>, z: Seq<u8>)
    ensures
        (x + y + z).subrange(x.len() as int, (x.len() + y.len()) as int) == y,
{
    assert((x + y + z).subrange(x.len() as int, (x.len() + y.len()) as int) =~= y);
}

/// An account's fields around its nonce and its energy.
proof fn lemma_account_split(addr: Seq<u8>, a: Account)
    ensures
        account_fields(addr, a) == (framed(addr) + le_u64(8)) + le_u64(a.nonce) + (seq![0xFFu8] + framed(
            capability_json(a.capability),
        ) + le_u64(8) + le_u64(a.energy) + seq![0xFFu8] + meta_fields(a)),
        account_fields(addr, a) == (framed(addr) + le_u64(8) + le_u64(a.nonce) + seq![0xFFu8] + framed(
            capability_json(a.capability),
        ) + le_u64(8)) + le_u64(a.energy) + (seq![0xFFu8] + meta_fields(a)),
{
    assert(account_fields(addr, a) =~= (framed(addr) + le_u64(8)) + le_u64(a.nonce) + (seq![0xFFu8] + framed(
        capability_json(a.capability),
    ) + le_u64(8) + le_u64(a.energy) + seq![0xFFu8] + meta_fields(a)));
    assert(account_fields(addr, a) =~= (framed(addr) + le_u64(8) + le_u64(a.nonce) + seq![0xFFu8] + framed(
        capability_json(a.capability),
    ) + le_u64(8)) + le_u64(a.energy) + (seq![0xFFu8] + meta_fields(a)));
}

/// In `x + (u + v + w) + z`, the part `v` sits right after `x + u`.
proof fn lemma_inner(x: Seq<u8>, u: Seq<u8>, v: Seq<u8>, w: Seq<u8>, z: Seq<u8>)
    ensures
        (x + (u + v + w) + z).subrange((x.len() + u.len()) as int, (x.len() + u.len() + v.len()) as int) == v,
{
    assert(x + (u + v + w) + z =~= (x + u) + v + (w + z));
    lemma_middle(x + u, v, w + z);
}

/// Equal bytes around two accounts' fields at one address agree only when
/// the nonces agree.
#[verifier::rlimit(40)]
proof fn lemma_fields_commit_nonce(x: Seq<u8>, q: Seq<u8>, addr: Seq<u8>, a: Account, b: Account)
    requires
        x + account_fields(addr, a) + q == x + account_fields(addr, b) + q,
    ensures
        a.nonce == b.nonce,
{
    lemma_account_split(addr, a);
    lemma_account_split(addr, b);
    let u1 = framed(addr) + le_u64(8);
    let wa = seq![0xFFu8] + framed(capability_json(a.capability)) + le_u64(8) + le_u64(a.energy)
        + seq![0xFFu8] + meta_fields(a);
    let wb = seq![0xFFu8] + framed(capability_json(b.capability)) + le_u64(8) + le_u64(b.energy)
        + seq![0xFFu8] + meta_fields(b);
    let na = le_u64(a.nonce);
    let nb = le_u64(b.nonce);
    assert(account_fields(addr, a) == u1 + na + wa);
    assert(account_fields(addr, b) == u1 + nb + wb);
    assert(na.len() == 8 && nb.len() == 8);
    lemma_inner(x, u1, na, wa, q);
    lemma_inner(x, u1, nb, wb, q);
    assert(na == nb);
    lemma_le_u64_injective(a.nonce, b.nonce);
}

/// Equal bytes around the fields of two accounts of one capability at one
/// address agree only when the energies agree.
#[verifier::rlimit(40)]
proof fn lemma_fields_commit_energy(x: Seq<u8>, q: Seq<u8>, addr: Seq<u8>, a: Account, b: Account)
    requires
        x + account_fields(addr, a) + q == x + account_fields(addr, b) + q,
        a.capability == b.capability,
    ensures
        a.energy == b.energy,
{
    lemma_account_split(addr, a);
    lemma_account_split(addr, b);
    let ua = framed(addr) + le_u64(8) + le_u64(a.nonce) + seq![0xFFu8] + framed(capability_json(a.capability))
        + le_u64(8);
    let ub = framed(addr) + le_u64(8) + le_u64(b.nonce) + seq![0xFFu8] + framed(capability_json(b.capability))
        + le_u64(8);
    let ea = le_u64(a.energy);
    let eb = le_u64(b.energy);
    let wa = seq![0xFFu8] + meta_fields(a);
    let wb = seq![0xFFu8] + meta_fields(b);
    assert(account_fields(addr, a) == ua + ea + wa);
    assert(account_fields(addr, b) == ub + eb + wb);
    assert(ua.len() == ub.len());
    assert(ea.len() == 8 && eb.len() == 8);
    lemma_inner(x, ua, ea, wa, q);
    lemma_inner(x, ub, eb, wb, q);
    assert(ea == eb);
    lemma_le_u64_injective(a.energy, b.energy);
}

/// The presence flag of an account's metadata and what follows it.
spec fn meta_flag(a: Account) -> u8 {
    if a.metadata is Some { 1u8 } else { 0u8 }
}

spec fn meta_rest(a: Account) -> Seq<u8> {
    match a.metadata {
        Some(m) => seq![0xFFu8] + framed(m@),
        None => seq![0xFFu8],
    }
}

/// Equal bytes around the fields of two accounts of one capability at one
/// address agree only when both or neither carry metadata.
#[verifier::rlimit(40)]
proof fn lemma_fields_commit_metadata_presence(x: Seq<u8>, q: Seq<u8>, addr: Seq<u8>, a: Account, b: Account)
    requires
        x + account_fields(addr, a) + q == x + account_fields(addr, b) + q,
        a.capability == b.capability,
    ensures
        a.metadata is Some <==> b.metadata is Some,
{
    lemma_account_split(addr, a);
    lemma_account_split(addr, b);
    let ua = framed(addr) + le_u64(8) + le_u64(a.nonce) + seq![0xFFu8] + framed(capability_json(a.capability))
        + le_u64(8) + le_u64(a.energy) + seq![0xFFu8] + le_u64(1);
    let ub = framed(addr) + le_u64(8) + le_u64(b.nonce) + seq![0xFFu8] + framed(capability_json(b.capability))
        + le_u64(8) + le_u64(b.energy) + seq![0xFFu8] + le_u64(1);
    let fa = seq![meta_flag(a)];
    let fb = seq![meta_flag(b)];
    assert(meta_fields(a) =~= le_u64(1) + fa + meta_rest(a));
    assert(meta_fields(b) =~= le_u64(1) + fb + meta_rest(b));
    assert(account_fields(addr, a) =~= ua + fa + meta_rest(a));
    assert(account_fields(addr, b) =~= ub + fb + meta_rest(b));
    assert(ua.len() == ub.len());
    lemma_inner(x, ua, fa, meta_rest(a), q);
    lemma_inner(x, ub, fb, meta_rest(b), q);
    assert(fa[0] == fb[0]);
}

/// The JSON texts of the two capabilities have different lengths.
proof fn lemma_capability_json_len(c: Capability)
    ensures
        c == Capability::User ==> capability_json(c).len() == 6,
        c == Capability::UserSigned ==> capability_json(c).len() == 12,
{
    reveal_strlit("\"");
    reveal_strlit("User");
    reveal_strlit("UserSigned");
    let t = "\""@ + c.name() + "\""@;
    assert(all_ascii(t)) by {
        assert forall|i: int| 0 <= i < t.len() implies (#[trigger] t[i] as u32) < 128 by {
            if i == 0 || i == t.len() - 1 {
            } else {
                assert(t[i] == c.name()[i - 1]);
            }
        }
    }
    lemma_ascii_byte_len(t);
}

/// Equal bytes around two accounts' fields at one address agree only when
/// the capabilities agree.
#[verifier::rlimit(40)]
proof fn lemma_fields_commit_capability(x: Seq<u8>, q: Seq<u8>, addr: Seq<u8>, a: Account, b: Account)
    requires
        x + account_fields(addr, a) + q == x + account_fields(addr, b) + q,
    ensures
        a.capability == b.capability,
{
    let ja = capability_json(a.capability);
    let jb = capability_json(b.capability);
    let ua = framed(addr) + framed(le_u64(a.nonce));
    let ub = framed(addr) + framed(le_u64(b.nonce));
    let la = le_u64(ja.len() as u64);
    let lb = le_u64(jb.len() as u64);
    let wa = ja + seq![0xFFu8] + framed(le_u64(a.energy)) + meta_fields(a);
    let wb = jb + seq![0xFFu8] + framed(le_u64(b.energy)) + meta_fields(b);
    assert(account_fields(addr, a) =~= ua + la + wa);
    assert(account_fields(addr, b) =~= ub + lb + wb);
    assert(ua.len() == ub.len());
    lemma_inner(x, ua, la, wa, q);
    lemma_inner(x, ub, lb, wb, q);
    lemma_capability_json_len(a.capability);
    lemma_capability_json_len(b.capability);
    lemma_le_u64_injective(ja.len() as u64, jb.len() as u64);
    assert(ja.len() == jb.len());
}

/// Equal bytes around the fields of two accounts of one capability, both
/// carrying metadata, at one address agree only when the metadata bytes do.
#[verifier::rlimit(40)]
proof fn lemma_fields_commit_metadata(x: Seq<u8>, q: Seq<u8>, addr: Seq<u8>, a: Account, b: Account)
    requires
        x + account_fields(addr, a) + q == x + account_fields(addr, b) + q,
        a.capability == b.capability,
        a.metadata is Some,
        b.metadata is Some,
    ensures
        a.metadata->0@ == b.metadata->0@,
{
    let ma = a.metadata->0;
    let mb = b.metadata->0;
    vstd::std_specs::vec::axiom_spec_len(&ma);
    vstd::std_specs::vec::axiom_spec_len(&mb);
    let ua = framed(addr) + framed(le_u64(a.nonce)) + framed(capability_json(a.capability)) + framed(
        le_u64(a.energy),
    ) + framed(seq![1u8]);
    let ub = framed(addr) + framed(le_u64(b.nonce)) + framed(capability_json(b.capability)) + framed(
        le_u64(b.energy),
    ) + framed(seq![1u8]);
    let la = le_u64(ma@.len() as u64);
    let lb = le_u64(mb@.len() as u64);
    assert(account_fields(addr, a) =~= ua + la + (ma@ + seq![0xFFu8]));
    assert(account_fields(addr, b) =~= ub + lb + (mb@ + seq![0xFFu8]));
    assert(ua.len() == ub.len());
    lemma_inner(x, ua, la, ma@ + seq![0xFFu8], q);
    lemma_inner(x, ub, lb, mb@ + seq![0xFFu8], q);
    lemma_le_u64_injective(ma@.len() as u64, mb@.len() as u64);
    assert(ma@.len() == mb@.len());
    lemma_inner(x, ua + la, ma@, seq![0xFFu8], q);
    lemma_inner(x, ub + lb, mb@, seq![0xFFu8], q);
    assert(x + account_fields(addr, a) + q =~= x + ((ua + la) + ma@ + seq![0xFFu8]) + q);
    assert(x + account_fields(addr, b) + q =~= x + ((ub + lb) + mb@ + seq![0xFFu8]) + q);
}

/// The root messages of `accts` and of `accts` with account `i` replaced by
/// `b` share the bytes before and after that account's fields.
proof fn lemma_root_split(addrs: Seq<Seq<u8>>, accts: Seq<Account>, i: int, b: Account) -> (r: (
    Seq<u8>,
    Seq<u8>,
))
    requires
        addrs.len() == accts.len(),
        0 <= i < accts.len(),
    ensures
        root_message(addrs, accts) == r.0 + account_fields(addrs[i], accts[i]) + r.1,
        root_message(addrs, accts.update(i, b)) == r.0 + account_fields(addrs[i], b) + r.1,
{
    let upd = accts.update(i, b);
    let (p, q) = lemma_fields_update(addrs, accts, i, b);
    let h = encode_utf8(WORLD_STATE_HASH_NAMESPACE@) + seq![0u8, WORLD_STATE_HASH_VERSION] + framed(
        le_u64(addrs.len() as u64),
    );
    assert(upd.len() == accts.len());
    assert(root_message(addrs, accts) =~= (h + p) + account_fields(addrs[i], accts[i]) + q);
    assert(root_message(addrs, upd) =~= (h + p) + account_fields(addrs[i], b) + q);
    (h + p, q)
}

/// The state root commits to every field of each account: replacing one
/// account by one with another nonce or capability, or with the same
/// capability and another energy, another metadata presence or other
/// metadata bytes, changes the bytes hashed for the root.
pub proof fn law_root_commits_account_fields(addrs: Seq<Seq<u8>>, accts: Seq<Account>, i: int, b: Account)
    requires
        addrs.len() == accts.len(),
        0 <= i < accts.len(),
    ensures
        b.nonce != accts[i].nonce ==> root_message(addrs, accts) != root_message(addrs, accts.update(i, b)),
        b.capability == accts[i].capability && b.energy != accts[i].energy ==> root_message(addrs, accts)
            != root_message(addrs, accts.update(i, b)),
        b.capability == accts[i].capability && (b.metadata is Some) != (accts[i].metadata is Some)
            ==> root_message(addrs, accts) != root_message(addrs, accts.update(i, b)),
        b.capability != accts[i].capability ==> root_message(addrs, accts) != root_message(
            addrs,
            accts.update(i, b),
        ),
        b.capability == accts[i].capability && b.metadata is Some && accts[i].metadata is Some
            && b.metadata->0@ != accts[i].metadata->0@ ==> root_message(addrs, accts) != root_message(
            addrs,
            accts.update(i, b),
        ),
{
    let (x, q) = lemma_root_split(addrs, accts, i, b);
    if root_message(addrs, accts) == root_message(addrs, accts.update(i, b)) {
        let a = accts[i];
        lemma_fields_commit_nonce(x, q, addrs[i], a, b);
        lemma_fields_commit_capability(x, q, addrs[i], a, b);
        if b.capability == a.capability {
            lemma_fields_commit_energy(x, q, addrs[i], a, b);
            lemma_fields_commit_metadata_presence(x, q, addrs[i], a, b);
            if b.metadata is Some && a.metadata is Some {
                lemma_fields_commit_metadata(x, q, addrs[i], a, b);
            }
        }
    }
}

} // verus!
