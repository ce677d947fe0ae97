//! The canonical L2 world state: every account by key, and the state root that
//! commits to all of them.
use vstd::prelude::*;

use crate::codec::{hex_encode, push_bytes, push_str_bytes, spec_hex_lower, spec_u64_le, u64_le_bytes, utf8_bytes, zero_hash, spec_zero_hash};
use crate::outside::{pubkey_to_string, sha256, spec_parse_pubkey, spec_pubkey_base58, spec_sha256};
use crate::state::byte_order::{bytes_equal, bytes_less, bytes_lt};
use crate::state::sorted_map::{is_position, lemma_map_of_at, lemma_position_lookup, lemma_sorted_listing_of, lemma_splice, map_of, sorted_keys, sorted_listing, splice};
use crate::types::account::{AccountView, L2Account};
use crate::types::pubkey::Pubkey;

verus! {

/// The key under which an account is held: the UTF-8 bytes of its base58 text.
pub open spec fn spec_key_of(pubkey: Pubkey) -> Seq<u8> {
    utf8_bytes(spec_pubkey_base58(pubkey.bytes))
}

/// The byte that stands for an account's executable flag: 1 or 0.
pub open spec fn flag_byte(b: bool) -> u8 {
    if b { 1u8 } else { 0u8 }
}

/// The key's base58 text parses back to the key (as every key's does; a call
/// that renders the key establishes it).
pub open spec fn key_text_round_trips(pubkey: Pubkey) -> bool {
    spec_parse_pubkey(spec_pubkey_base58(pubkey.bytes)) == Ok::<[u8; 32], Seq<char>>(pubkey.bytes)
}

/// Two different keys whose texts parse back are held under different keys.
pub proof fn lemma_distinct_keys(a: Pubkey, b: Pubkey)
    requires
        key_text_round_trips(a),
        key_text_round_trips(b),
        a != b,
    ensures
        spec_key_of(a) != spec_key_of(b),
{
    if spec_key_of(a) == spec_key_of(b) {
        vstd::utf8::encode_utf8_decode_utf8(spec_pubkey_base58(a.bytes));
        vstd::utf8::encode_utf8_decode_utf8(spec_pubkey_base58(b.bytes));
        assert(a.bytes == b.bytes);
    }
}

/// The bytes hashed into the leaf of one account: its key, lamports and nonce
/// (little-endian), the owner's 32 bytes, the executable flag as one byte, and
/// the SHA-256 of its data. Every field of the account goes into its leaf.
pub open spec fn spec_leaf_preimage(key: Seq<u8>, a: AccountView) -> Seq<u8> {
    key + spec_u64_le(a.lamports) + spec_u64_le(a.nonce) + a.owner.bytes@ + seq![flag_byte(a.executable)]
        + spec_sha256(a.data)
}

/// The leaves of a listing of accounts, concatenated in listing order.
pub open spec fn spec_leaves(s: Seq<(Seq<u8>, AccountView)>) -> Seq<u8>
    decreases s.len(),
{
    if s.len() == 0 {
        Seq::empty()
    } else {
        spec_leaves(s.drop_last()) + spec_sha256(spec_leaf_preimage(s.last().0, s.last().1))
    }
}

/// The state root of a listing: lowercase hex of the SHA-256 of its leaves, or
/// of 32 zero bytes when there are no accounts.
pub open spec fn spec_state_root(s: Seq<(Seq<u8>, AccountView)>) -> Seq<char> {
    if s.len() == 0 {
        spec_hex_lower(Seq::new(32, |i: int| 0u8))
    } else {
        spec_hex_lower(spec_sha256(spec_leaves(s)))
    }
}

/// The state root of a set of accounts: that of their listing in increasing key order.
pub open spec fn spec_map_root(m: Map<Seq<u8>, AccountView>) -> Seq<char> {
    spec_state_root(sorted_listing(m))
}

/// The account at `k`, if any.
pub open spec fn lookup(m: Map<Seq<u8>, AccountView>, k: Seq<u8>) -> Option<AccountView> {
    if m.contains_key(k) { Some(m[k]) } else { None }
}

/// An optional account, as values.
pub open spec fn opt_view(a: Option<L2Account>) -> Option<AccountView> {
    match a {
        Some(x) => Some(x@),
        None => None,
    }
}

/// One account and the key it is held under.
#[derive(Clone, Debug)]
pub struct AccountEntry {
    pub key: Vec<u8>,
    pub account: L2Account,
}

/// The entries as (key, account) values.
pub open spec fn listing_of(entries: Seq<AccountEntry>) -> Seq<(Seq<u8>, AccountView)> {
    entries.map_values(|e: AccountEntry| (e.key@, e.account@))
}

/// The key an account is held under.
pub fn account_key_bytes(pubkey: &Pubkey) -> (r: Vec<u8>)
    ensures
        r@ == spec_key_of(*pubkey),
        key_text_round_trips(*pubkey),
{
    let text = pubkey_to_string(pubkey);
    let mut r: Vec<u8> = Vec::new();
    push_str_bytes(&mut r, text.as_str());
    assert(r@ =~= spec_key_of(*pubkey));
    r
}

/// Where `key` belongs among the sorted entries.
fn find_position(entries: &Vec<AccountEntry>, key: &Vec<u8>) -> (i: usize)
    requires
        sorted_keys(listing_of(entries@)),
    ensures
        is_position(listing_of(entries@), key@, i as int),
{
    let ghost s = listing_of(entries@);
    let n = entries.len();
    let mut i: usize = 0;
    while i < n && bytes_less(entries[i].key.as_slice(), key.as_slice())
        invariant
            n == entries@.len(),
            s == listing_of(entries@),
            i <= n,
            forall|j: int| 0 <= j < i ==> bytes_lt(#[trigger] s[j].0, key@),
        decreases n - i,
    {
        i = i + 1;
    }
    i
}

/// The state root of sorted entries.
fn compute_root(entries: &Vec<AccountEntry>) -> (r: String)
    ensures
        r@ == spec_state_root(listing_of(entries@)),
{
    let ghost s = listing_of(entries@);
    let n = entries.len();
    if n == 0 {
        let zeros: Vec<u8> = vec![0u8; 32];
        assert(zeros@ =~= Seq::new(32, |i: int| 0u8));
        return hex_encode(zeros.as_slice());
    }
    let mut all: Vec<u8> = Vec::new();
    let mut i: usize = 0;
    assert(s.take(0) =~= Seq::<(Seq<u8>, AccountView)>::empty());
    while i < n
        invariant
            n == entries@.len(),
            s == listing_of(entries@),
            i <= n,
            all@ == spec_leaves(s.take(i as int)),
        decreases n - i,
    {
        let e = &entries[i];
        let mut pre: Vec<u8> = Vec::new();
        push_bytes(&mut pre, e.key.as_slice());
        let lam = u64_le_bytes(e.account.lamports);
        push_bytes(&mut pre, lam.as_slice());
        let non = u64_le_bytes(e.account.nonce);
        push_bytes(&mut pre, non.as_slice());
        push_bytes(&mut pre, e.account.owner.bytes.as_slice());
        pre.push(if e.account.executable { 1u8 } else { 0u8 });
        let dh = sha256(e.account.data.as_slice());
        push_bytes(&mut pre, dh.as_slice());
        assert(pre@ =~= spec_leaf_preimage(s[i as int].0, s[i as int].1));
        let leaf = sha256(pre.as_slice());
        push_bytes(&mut all, leaf.as_slice());
        assert(s.take(i + 1).drop_last() =~= s.take(i as int));
        i = i + 1;
    }
    assert(s.take(n as int) =~= s);
    let digest = sha256(all.as_slice());
    hex_encode(digest.as_slice())
}

/// The world state: every account by key, in increasing key order, and the
/// state root. Once any account has been written the root commits to all of
/// them; before that it is the root the node started from.
pub struct StateManager {
    entries: Vec<AccountEntry>,
    state_root: String,
}

impl StateManager {
    /// The entries as (key, account) values, in key order.
    pub closed spec fn listing(&self) -> Seq<(Seq<u8>, AccountView)> {
        listing_of(self.entries@)
    }

    /// Every account, by key.
    pub closed spec fn accounts(&self) -> Map<Seq<u8>, AccountView> {
        map_of(self.listing())
    }

    /// The current state root.
    pub closed spec fn root(&self) -> Seq<char> {
        self.state_root@
    }

    #[verifier::type_invariant]
    spec fn inv(&self) -> bool {
        &&& sorted_keys(self.listing())
        &&& self.entries@.len() > 0 ==> self.state_root@ == spec_state_root(self.listing())
    }

    /// A state with no accounts, whose root is the one stored by an earlier run,
    /// or sixty-four zeros.
    pub fn new(stored_root: Option<String>) -> (r: Self)
        ensures
            r.accounts() == Map::<Seq<u8>, AccountView>::empty(),
            r.root() == match stored_root {
                Some(s) => s@,
                None => spec_zero_hash(),
            },
    {
        let state_root = match stored_root {
            Some(s) => s,
            None => zero_hash(),
        };
        let r = StateManager { entries: Vec::new(), state_root };
        assert(r.accounts() =~= Map::<Seq<u8>, AccountView>::empty());
        r
    }

    /// The account held for `pubkey`, if any.
    pub fn get_account(&self, pubkey: &Pubkey) -> (r: Option<L2Account>)
        ensures
            opt_view(r) == lookup(self.accounts(), spec_key_of(*pubkey)),
            key_text_round_trips(*pubkey),
    {
        proof {
            use_type_invariant(self);
        }
        let key = account_key_bytes(pubkey);
        let pos = find_position(&self.entries, &key);
        proof {
            lemma_position_lookup(self.listing(), key@, pos as int);
        }
        if pos < self.entries.len() && bytes_equal(self.entries[pos].key.as_slice(), key.as_slice()) {
            proof {
                lemma_map_of_at(self.listing(), pos as int);
            }
            Some(self.entries[pos].account.duplicate())
        } else {
            None
        }
    }

    /// The nonce of the account held for `pubkey`, or 0 if there is none.
    pub fn get_nonce(&self, pubkey: &Pubkey) -> (r: u64)
        ensures
            r == match lookup(self.accounts(), spec_key_of(*pubkey)) {
                Some(a) => a.nonce,
                None => 0,
            },
            key_text_round_trips(*pubkey),
    {
        match self.get_account(pubkey) {
            Some(a) => a.nonce,
            None => 0,
        }
    }

    /// The current state root.
    pub fn get_state_root(&self) -> (r: String)
        ensures
            r@ == self.root(),
    {
        self.state_root.clone()
    }

    /// The current state root (the same as `get_state_root`).
    pub fn get_state_root_async(&self) -> (r: String)
        ensures
            r@ == self.root(),
    {
        self.state_root.clone()
    }

    /// Holds `account` for `pubkey`, in place of any account held before, and
    /// recomputes the state root over all accounts.
    pub fn update_account(&mut self, pubkey: &Pubkey, account: L2Account)
        ensures
            final(self).accounts() == old(self).accounts().insert(spec_key_of(*pubkey), account@),
            final(self).root() == spec_map_root(final(self).accounts()),
            key_text_round_trips(*pubkey),
    {
        proof {
            use_type_invariant(&*self);
        }
        let ghost s = self.listing();
        let key = account_key_bytes(pubkey);
        let pos = find_position(&self.entries, &key);
        let replace = pos < self.entries.len() && bytes_equal(self.entries[pos].key.as_slice(), key.as_slice());
        let ghost kv = key@;
        let ghost av = account@;
        let mut entries: Vec<AccountEntry> = Vec::new();
        std::mem::swap(&mut entries, &mut self.entries);
        assert(listing_of(entries@) == s);
        if replace {
            entries.remove(pos);
        }
        entries.insert(pos, AccountEntry { key, account });
        proof {
            lemma_splice(s, pos as int, kv, av);
            assert(listing_of(entries@) =~= splice(s, pos as int, kv, av, replace));
        }
        let root = compute_root(&entries);
        *self = StateManager { entries, state_root: root };
        proof {
            lemma_sorted_listing_of(self.listing());
        }
    }

    /// The accounts in key order, each with the key it is held under.
    pub fn account_entries(&self) -> (r: &Vec<AccountEntry>)
        ensures
            listing_of(r@) == self.listing(),
            map_of(listing_of(r@)) == self.accounts(),
    {
        &self.entries
    }
}

/// Reading an account after writing it gives what was written, and writing one
/// account leaves every other as it was.
pub proof fn law_read_after_write(m: Map<Seq<u8>, AccountView>, k: Seq<u8>, a: AccountView, other: Seq<u8>)
    requires
        other != k,
    ensures
        lookup(m.insert(k, a), k) == Some(a),
        lookup(m.insert(k, a), other) == lookup(m, other),
{
}

/// The same by account key: after writing account `k`, reading it gives what
/// was written, and reading any other key gives what it gave before.
pub proof fn law_read_after_write_by_key(m: Map<Seq<u8>, AccountView>, k: Pubkey, a: AccountView, other: Pubkey)
    requires
        other != k,
        key_text_round_trips(k),
        key_text_round_trips(other),
    ensures
        lookup(m.insert(spec_key_of(k), a), spec_key_of(k)) == Some(a),
        lookup(m.insert(spec_key_of(k), a), spec_key_of(other)) == lookup(m, spec_key_of(other)),
{
    lemma_distinct_keys(k, other);
}

/// The state root depends only on the accounts, not on the order in which they
/// were written: writing two accounts either way round gives the same root.
pub proof fn law_root_independent_of_write_order(
    m: Map<Seq<u8>, AccountView>,
    k1: Seq<u8>,
    a1: AccountView,
    k2: Seq<u8>,
    a2: AccountView,
)
    requires
        k1 != k2,
    ensures
        spec_map_root(m.insert(k1, a1).insert(k2, a2)) == spec_map_root(m.insert(k2, a2).insert(k1, a1)),
{
    assert(m.insert(k1, a1).insert(k2, a2) =~= m.insert(k2, a2).insert(k1, a1));
}

/// The state root of a set of accounts is the hash of their leaves taken in
/// increasing key order: for any listing of the accounts sorted by key, the
/// root is computed from that listing.
pub proof fn law_root_is_hash_of_sorted_leaves(s: Seq<(Seq<u8>, AccountView)>)
    requires
        sorted_keys(s),
    ensures
        spec_map_root(map_of(s)) == spec_state_root(s),
{
    lemma_sorted_listing_of(s);
}

/// The leaf of one listed account: the SHA-256 of its preimage.
pub open spec fn leaf_of(e: (Seq<u8>, AccountView)) -> Seq<u8> {
    spec_sha256(spec_leaf_preimage(e.0, e.1))
}

/// The leaves, built last to first, are the leaves of the accounts one after
/// another.
proof fn lemma_leaves_flatten_alt(s: Seq<(Seq<u8>, AccountView)>)
    ensures
        spec_leaves(s) == s.map_values(|e: (Seq<u8>, AccountView)| leaf_of(e)).flatten_alt(),
        (forall|i: int| 0 <= i < s.len() ==> (#[trigger] leaf_of(s[i])).len() == 32)
            ==> spec_leaves(s).len() == 32 * s.len(),
    decreases s.len(),
{
    let hs = s.map_values(|e: (Seq<u8>, AccountView)| leaf_of(e));
    if s.len() > 0 {
        lemma_leaves_flatten_alt(s.drop_last());
        assert(hs.drop_last() =~= s.drop_last().map_values(|e: (Seq<u8>, AccountView)| leaf_of(e)));
        assert(hs.last() == leaf_of(s.last()));
        if forall|i: int| 0 <= i < s.len() ==> (#[trigger] leaf_of(s[i])).len() == 32 {
            assert forall|i: int| 0 <= i < s.drop_last().len() implies (#[trigger] leaf_of(s.drop_last()[i])).len() == 32 by {
                assert(s.drop_last()[i] == s[i]);
            }
            assert(leaf_of(s[s.len() - 1]).len() == 32);
        }
    } else {
        assert(hs =~= Seq::<Seq<u8>>::empty());
    }
}

/// The state root commits to every account, whatever it holds: the hashed
/// leaves are the leaf of each account of the listing, in order, with none left
/// out, so with 32-byte leaves there are exactly 32 bytes per account.
pub proof fn law_root_hashes_every_account(s: Seq<(Seq<u8>, AccountView)>)
    ensures
        spec_leaves(s) == s.map_values(|e: (Seq<u8>, AccountView)| leaf_of(e)).flatten(),
        (forall|i: int| 0 <= i < s.len() ==> (#[trigger] leaf_of(s[i])).len() == 32)
            ==> spec_leaves(s).len() == 32 * s.len(),
{
    lemma_leaves_flatten_alt(s);
    s.map_values(|e: (Seq<u8>, AccountView)| leaf_of(e)).lemma_flatten_and_flatten_alt_are_equivalent();
}

} // verus!
