//! An in-memory key-value store of byte strings, and the keys the node uses.
use vstd::prelude::*;

use crate::codec::{push_bytes, push_str_bytes, utf8_bytes};
use crate::state::byte_order::{bytes_equal, bytes_less, bytes_lt};
use crate::state::sorted_map::{
    is_position, lemma_map_of_at, lemma_position_lookup, lemma_remove_at, lemma_splice, map_of,
    sorted_keys, splice,
};
use crate::types::error::ClutchError;

verus! {

/// One stored value and its key.
#[derive(Clone, Debug)]
pub struct StoreEntry {
    pub key: Vec<u8>,
    pub value: Vec<u8>,
}

/// The entries as (key, value) byte strings.
pub open spec fn store_listing(entries: Seq<StoreEntry>) -> Seq<(Seq<u8>, Seq<u8>)> {
    entries.map_values(|e: StoreEntry| (e.key@, e.value@))
}

/// The stored value at `k`, if any.
pub open spec fn stored(m: Map<Seq<u8>, Seq<u8>>, k: Seq<u8>) -> Option<Seq<u8>> {
    if m.contains_key(k) { Some(m[k]) } else { None }
}

/// An optional byte vector, as a sequence.
pub open spec fn opt_bytes(v: Option<Vec<u8>>) -> Option<Seq<u8>> {
    match v {
        Some(x) => Some(x@),
        None => None,
    }
}

/// `prefix` begins `s`.
pub open spec fn starts_with(s: Seq<u8>, prefix: Seq<u8>) -> bool {
    prefix.len() <= s.len() && s.take(prefix.len() as int) == prefix
}

/// The values of a listing whose keys begin with `prefix`, in listing order.
pub open spec fn spec_scan(s: Seq<(Seq<u8>, Seq<u8>)>, prefix: Seq<u8>) -> Seq<Seq<u8>>
    decreases s.len(),
{
    if s.len() == 0 {
        Seq::empty()
    } else {
        spec_scan(s.drop_last(), prefix) + if starts_with(s.last().0, prefix) {
            seq![s.last().1]
        } else {
            Seq::empty()
        }
    }
}

/// A store of byte values by byte keys, kept in increasing key order.
pub struct Store {
    entries: Vec<StoreEntry>,
}

/// Where `key` belongs among the sorted entries.
fn find_position(entries: &Vec<StoreEntry>, key: &[u8]) -> (i: usize)
    requires
        sorted_keys(store_listing(entries@)),
    ensures
        is_position(store_listing(entries@), key@, i as int),
{
    let ghost s = store_listing(entries@);
    let n = entries.len();
    let mut i: usize = 0;
    while i < n && bytes_less(entries[i].key.as_slice(), key)
        invariant
            n == entries@.len(),
            s == store_listing(entries@),
            i <= n,
            forall|j: int| 0 <= j < i ==> bytes_lt(#[trigger] s[j].0, key@),
        decreases n - i,
    {
        i = i + 1;
    }
    i
}

/// Whether `prefix` begins `s`.
fn has_prefix(s: &[u8], prefix: &[u8]) -> (r: bool)
    ensures
        r == starts_with(s@, prefix@),
{
    if prefix.len() > s.len() {
        return false;
    }
    let n = prefix.len();
    let mut i: usize = 0;
    while i < n
        invariant
            n == prefix@.len(),
            n <= s@.len(),
            i <= n,
            forall|j: int| 0 <= j < i ==> s@[j] == prefix@[j],
        decreases n - i,
    {
        if s[i] != prefix[i] {
            assert(s@.take(n as int)[i as int] != prefix@[i as int]);
            return false;
        }
        i = i + 1;
    }
    assert(s@.take(n as int) =~= prefix@);
    true
}

impl Store {
    /// The entries in key order.
    pub closed spec fn listing(&self) -> Seq<(Seq<u8>, Seq<u8>)> {
        store_listing(self.entries@)
    }

    /// The stored values by key.
    pub closed spec fn contents(&self) -> Map<Seq<u8>, Seq<u8>> {
        map_of(self.listing())
    }

    #[verifier::type_invariant]
    spec fn inv(&self) -> bool {
        sorted_keys(self.listing())
    }

    /// An empty store. The store is held in memory, so the path names nothing
    /// that is read; opening always succeeds.
    pub fn open(path: &str) -> (r: Result<Store, ClutchError>)
        ensures
            r matches Ok(s) && s.contents() == Map::<Seq<u8>, Seq<u8>>::empty(),
    {
        let s = Store { entries: Vec::new() };
        assert(s.contents() =~= Map::<Seq<u8>, Seq<u8>>::empty());
        Ok(s)
    }

    /// Stores `value` under `key`, in place of any value there.
    pub fn put(&mut self, key: &[u8], value: Vec<u8>)
        ensures
            final(self).contents() == old(self).contents().insert(key@, value@),
    {
        proof {
            use_type_invariant(&*self);
        }
        let ghost s = self.listing();
        let ghost vv = value@;
        let pos = find_position(&self.entries, key);
        let replace = pos < self.entries.len() && bytes_equal(self.entries[pos].key.as_slice(), key);
        let mut k: Vec<u8> = Vec::new();
        push_bytes(&mut k, key);
        let mut entries: Vec<StoreEntry> = Vec::new();
        std::mem::swap(&mut entries, &mut self.entries);
        if replace {
            entries.remove(pos);
        }
        entries.insert(pos, StoreEntry { key: k, value });
        proof {
            lemma_splice(s, pos as int, key@, vv);
            assert(store_listing(entries@) =~= splice(s, pos as int, key@, vv, replace));
        }
        *self = Store { entries };
    }

    /// The value stored under `key`, if any.
    pub fn get(&self, key: &[u8]) -> (r: Option<Vec<u8>>)
        ensures
            opt_bytes(r) == stored(self.contents(), key@),
    {
        proof {
            use_type_invariant(self);
        }
        let pos = find_position(&self.entries, key);
        proof {
            lemma_position_lookup(self.listing(), key@, pos as int);
        }
        if pos < self.entries.len() && bytes_equal(self.entries[pos].key.as_slice(), key) {
            proof {
                lemma_map_of_at(self.listing(), pos as int);
            }
            let mut v: Vec<u8> = Vec::new();
            push_bytes(&mut v, self.entries[pos].value.as_slice());
            assert(v@ =~= self.listing()[pos as int].1);
            Some(v)
        } else {
            None
        }
    }

    /// Removes any value stored under `key`.
    pub fn delete(&mut self, key: &[u8])
        ensures
            final(self).contents() == old(self).contents().remove(key@),
    {
        proof {
            use_type_invariant(&*self);
        }
        let ghost s = self.listing();
        let pos = find_position(&self.entries, key);
        proof {
            lemma_position_lookup(s, key@, pos as int);
        }
        if pos < self.entries.len() && bytes_equal(self.entries[pos].key.as_slice(), key) {
            let mut entries: Vec<StoreEntry> = Vec::new();
            std::mem::swap(&mut entries, &mut self.entries);
            entries.remove(pos);
            proof {
                lemma_remove_at(s, pos as int);
                assert(store_listing(entries@) =~= s.remove(pos as int));
            }
            *self = Store { entries };
        } else {
            assert(self.contents() =~= old(self).contents().remove(key@));
        }
    }

    /// The values whose keys begin with `prefix`, in increasing key order.
    pub fn scan_prefix(&self, prefix: &[u8]) -> (r: Vec<Vec<u8>>)
        ensures
            r@.map_values(|v: Vec<u8>| v@) == spec_scan(self.listing(), prefix@),
    {
        let ghost s = self.listing();
        let n = self.entries.len();
        let mut r: Vec<Vec<u8>> = Vec::new();
        let mut i: usize = 0;
        assert(s.take(0) =~= Seq::<(Seq<u8>, Seq<u8>)>::empty());
        while i < n
            invariant
                n == self.entries@.len(),
                s == self.listing(),
                i <= n,
                r@.map_values(|v: Vec<u8>| v@) == spec_scan(s.take(i as int), prefix@),
            decreases n - i,
        {
            let ghost before = r@;
            assert(s.take(i + 1).drop_last() =~= s.take(i as int));
            if has_prefix(self.entries[i].key.as_slice(), prefix) {
                let mut v: Vec<u8> = Vec::new();
                push_bytes(&mut v, self.entries[i].value.as_slice());
                r.push(v);
                assert(r@.map_values(|v: Vec<u8>| v@) =~= before.map_values(|v: Vec<u8>| v@) + seq![s[i as int].1]);
            } else {
                assert(r@.map_values(|v: Vec<u8>| v@) =~= before.map_values(|v: Vec<u8>| v@) + Seq::<Seq<u8>>::empty());
            }
            i = i + 1;
        }
        assert(s.take(n as int) =~= s);
        r
    }
}

} // verus!

verus! {

/// The ASCII code of the lowercase hex digit for a value below 16.
pub open spec fn hex_byte(v: nat) -> u8 {
    if v < 10 { (48 + v) as u8 } else { (87 + v) as u8 }
}

/// The `n` lowest hex digits of `x`, most significant first, as ASCII bytes:
/// what `{:0n$x}` writes for a number below 16 to the `n`.
pub open spec fn hex_digits(x: nat, n: nat) -> Seq<u8>
    decreases n,
{
    if n == 0 {
        Seq::empty()
    } else {
        hex_digits(x / 16, (n - 1) as nat) + seq![hex_byte(x % 16)]
    }
}

/// Appends the `n` lowest hex digits of `x`.
fn push_hex_digits(out: &mut Vec<u8>, x: u64, n: usize)
    ensures
        final(out)@ == old(out)@ + hex_digits(x as nat, n as nat),
    decreases n,
{
    if n == 0 {
        assert(final(out)@ =~= old(out)@ + hex_digits(x as nat, 0));
        return;
    }
    push_hex_digits(out, x / 16, n - 1);
    let d = x % 16;
    let b: u8 = if d < 10 { 48 + (d as u8) } else { 87 + (d as u8) };
    out.push(b);
    assert(final(out)@ =~= old(out)@ + hex_digits(x as nat, n as nat));
}

/// "acct:" followed by the key's text: where an account is stored.
pub fn account_key(pubkey: &str) -> (r: Vec<u8>)
    ensures
        r@ == seq![97u8, 99u8, 99u8, 116u8, 58u8] + utf8_bytes(pubkey@),
{
    let mut r: Vec<u8> = vec![97u8, 99u8, 99u8, 116u8, 58u8];
    push_str_bytes(&mut r, pubkey);
    r
}

/// "block:" followed by the number as sixteen lowercase hex digits.
pub fn block_key(number: u64) -> (r: Vec<u8>)
    ensures
        r@ == seq![98u8, 108u8, 111u8, 99u8, 107u8, 58u8] + hex_digits(number as nat, 16),
{
    let mut r: Vec<u8> = vec![98u8, 108u8, 111u8, 99u8, 107u8, 58u8];
    push_hex_digits(&mut r, number, 16);
    r
}

/// "batch:" followed by the number as sixteen lowercase hex digits.
pub fn batch_key(number: u64) -> (r: Vec<u8>)
    ensures
        r@ == seq![98u8, 97u8, 116u8, 99u8, 104u8, 58u8] + hex_digits(number as nat, 16),
{
    let mut r: Vec<u8> = vec![98u8, 97u8, 116u8, 99u8, 104u8, 58u8];
    push_hex_digits(&mut r, number, 16);
    r
}

/// "receipt:" followed by the transaction id.
pub fn receipt_key(tx_id: &str) -> (r: Vec<u8>)
    ensures
        r@ == seq![114u8, 101u8, 99u8, 101u8, 105u8, 112u8, 116u8, 58u8] + utf8_bytes(tx_id@),
{
    let mut r: Vec<u8> = vec![114u8, 101u8, 99u8, 101u8, 105u8, 112u8, 116u8, 58u8];
    push_str_bytes(&mut r, tx_id);
    r
}

/// "nonce:" followed by the key's text.
pub fn nonce_key(pubkey: &str) -> (r: Vec<u8>)
    ensures
        r@ == seq![110u8, 111u8, 110u8, 99u8, 101u8, 58u8] + utf8_bytes(pubkey@),
{
    let mut r: Vec<u8> = vec![110u8, 111u8, 110u8, 99u8, 101u8, 58u8];
    push_str_bytes(&mut r, pubkey);
    r
}

/// Where the state root is stored: "meta:state_root".
pub fn state_root_key() -> (r: Vec<u8>)
    ensures
        r@ == seq![109u8, 101u8, 116u8, 97u8, 58u8, 115u8, 116u8, 97u8, 116u8, 101u8, 95u8, 114u8, 111u8, 111u8, 116u8],
{
    vec![109u8, 101u8, 116u8, 97u8, 58u8, 115u8, 116u8, 97u8, 116u8, 101u8, 95u8, 114u8, 111u8, 111u8, 116u8]
}

/// Where the height of the chain is stored: "meta:block_height".
pub fn block_height_key() -> (r: Vec<u8>)
    ensures
        r@ == seq![109u8, 101u8, 116u8, 97u8, 58u8, 98u8, 108u8, 111u8, 99u8, 107u8, 95u8, 104u8, 101u8, 105u8, 103u8, 104u8, 116u8],
{
    vec![109u8, 101u8, 116u8, 97u8, 58u8, 98u8, 108u8, 111u8, 99u8, 107u8, 95u8, 104u8, 101u8, 105u8, 103u8, 104u8, 116u8]
}

/// Where the number of the last batch is stored: "meta:batch_number".
pub fn batch_number_key() -> (r: Vec<u8>)
    ensures
        r@ == seq![109u8, 101u8, 116u8, 97u8, 58u8, 98u8, 97u8, 116u8, 99u8, 104u8, 95u8, 110u8, 117u8, 109u8, 98u8, 101u8, 114u8],
{
    vec![109u8, 101u8, 116u8, 97u8, 58u8, 98u8, 97u8, 116u8, 99u8, 104u8, 95u8, 110u8, 117u8, 109u8, 98u8, 101u8, 114u8]
}

/// A read gives back the last value written under its key, nothing after the
/// key is deleted, and a write or delete under one key leaves every other key
/// as it was.
pub proof fn law_store_read_after_write(m: Map<Seq<u8>, Seq<u8>>, k: Seq<u8>, v: Seq<u8>, other: Seq<u8>)
    requires
        other != k,
    ensures
        stored(m.insert(k, v), k) == Some(v),
        stored(m.remove(k), k) is None,
        stored(m.insert(k, v), other) == stored(m, other),
        stored(m.remove(k), other) == stored(m, other),
{
}

/// Sixteen to the `n`.
pub open spec fn pow16(n: nat) -> nat
    decreases n,
{
    if n == 0 { 1 } else { 16 * pow16((n - 1) as nat) }
}

/// Where block `n` is stored: "block:" and sixteen hex digits.
pub open spec fn spec_block_key(n: u64) -> Seq<u8> {
    seq![98u8, 108u8, 111u8, 99u8, 107u8, 58u8] + hex_digits(n as nat, 16)
}

/// Where batch `n` is stored: "batch:" and sixteen hex digits.
pub open spec fn spec_batch_key(n: u64) -> Seq<u8> {
    seq![98u8, 97u8, 116u8, 99u8, 104u8, 58u8] + hex_digits(n as nat, 16)
}

/// `hex_digits` writes exactly `n` digits.
proof fn lemma_hex_digits_len(x: nat, n: nat)
    ensures
        hex_digits(x, n).len() == n,
    decreases n,
{
    if n > 0 {
        lemma_hex_digits_len(x / 16, (n - 1) as nat);
    }
}

/// Two byte strings of one length, each followed by one more byte, compare by
/// the strings and then by the last bytes.
proof fn lemma_bytes_lt_push(s: Seq<u8>, t: Seq<u8>, x: u8, y: u8)
    requires
        s.len() == t.len(),
    ensures
        bytes_lt(s.push(x), t.push(y)) == (bytes_lt(s, t) || (s == t && x < y)),
    decreases s.len(),
{
    assert(s.push(x)[0] == if s.len() == 0 { x } else { s[0] });
    assert(t.push(y)[0] == if t.len() == 0 { y } else { t[0] });
    if s.len() == 0 {
        assert(s =~= t);
        assert(s.push(x).drop_first() =~= Seq::<u8>::empty());
        assert(t.push(y).drop_first() =~= Seq::<u8>::empty());
        assert(!bytes_lt(Seq::<u8>::empty(), Seq::<u8>::empty()));
    } else {
        assert(s.push(x).drop_first() =~= s.drop_first().push(x));
        assert(t.push(y).drop_first() =~= t.drop_first().push(y));
        lemma_bytes_lt_push(s.drop_first(), t.drop_first(), x, y);
        if s[0] == t[0] && s.drop_first() == t.drop_first() {
            assert(s =~= t) by {
                assert forall|i: int| 0 <= i < s.len() implies s[i] == t[i] by {
                    if i > 0 {
                        assert(s[i] == s.drop_first()[i - 1]);
                        assert(t[i] == t.drop_first()[i - 1]);
                    }
                }
            }
        }
    }
}

/// Byte strings with a common prefix compare as what follows it.
proof fn lemma_bytes_lt_common_prefix(p: Seq<u8>, s: Seq<u8>, t: Seq<u8>)
    ensures
        bytes_lt(p + s, p + t) == bytes_lt(s, t),
    decreases p.len(),
{
    if p.len() > 0 {
        assert((p + s).drop_first() =~= p.drop_first() + s);
        assert((p + t).drop_first() =~= p.drop_first() + t);
        lemma_bytes_lt_common_prefix(p.drop_first(), s, t);
    }
}

/// For numbers below sixteen to the `n`, their `n` hex digits are equal exactly
/// when the numbers are, and sort in the order of the numbers.
proof fn lemma_hex_digits_order(a: nat, b: nat, n: nat)
    requires
        a < pow16(n),
        b < pow16(n),
    ensures
        (hex_digits(a, n) == hex_digits(b, n)) == (a == b),
        bytes_lt(hex_digits(a, n), hex_digits(b, n)) == (a < b),
    decreases n,
{
    if n == 0 {
        assert(hex_digits(a, 0) =~= hex_digits(b, 0));
    } else {
        let m = (n - 1) as nat;
        lemma_hex_digits_order(a / 16, b / 16, m);
        lemma_hex_digits_len(a / 16, m);
        lemma_hex_digits_len(b / 16, m);
        lemma_bytes_lt_push(hex_digits(a / 16, m), hex_digits(b / 16, m), hex_byte(a % 16), hex_byte(b % 16));
        assert(a == 16 * (a / 16) + a % 16);
        assert(b == 16 * (b / 16) + b % 16);
        assert((a < b) == (a / 16 < b / 16 || (a / 16 == b / 16 && a % 16 < b % 16)));
        assert((hex_byte(a % 16) < hex_byte(b % 16)) == (a % 16 < b % 16));
        assert((hex_byte(a % 16) == hex_byte(b % 16)) == (a % 16 == b % 16));
        let da = hex_digits(a, n);
        let db = hex_digits(b, n);
        assert(da == hex_digits(a / 16, m).push(hex_byte(a % 16)));
        assert(db == hex_digits(b / 16, m).push(hex_byte(b % 16)));
        if da == db {
            assert(da[m as int] == db[m as int]);
            assert(da.drop_last() =~= hex_digits(a / 16, m));
            assert(db.drop_last() =~= hex_digits(b / 16, m));
        }
    }
}

/// Block keys are 22 bytes long, tell block numbers apart, and sort in the
/// order of the numbers; so do batch keys.
pub proof fn law_run_keys_follow_numbers(a: u64, b: u64)
    ensures
        spec_block_key(a).len() == 22,
        (spec_block_key(a) == spec_block_key(b)) == (a == b),
        bytes_lt(spec_block_key(a), spec_block_key(b)) == (a < b),
        spec_batch_key(a).len() == 22,
        (spec_batch_key(a) == spec_batch_key(b)) == (a == b),
        bytes_lt(spec_batch_key(a), spec_batch_key(b)) == (a < b),
{
    assert(pow16(16) == 0x1_0000_0000_0000_0000) by {
        reveal_with_fuel(pow16, 17);
    }
    lemma_hex_digits_len(a as nat, 16);
    lemma_hex_digits_order(a as nat, b as nat, 16);
    let pb = seq![98u8, 108u8, 111u8, 99u8, 107u8, 58u8];
    let pc = seq![98u8, 97u8, 116u8, 99u8, 104u8, 58u8];
    lemma_bytes_lt_common_prefix(pb, hex_digits(a as nat, 16), hex_digits(b as nat, 16));
    lemma_bytes_lt_common_prefix(pc, hex_digits(a as nat, 16), hex_digits(b as nat, 16));
    if spec_block_key(a) == spec_block_key(b) {
        assert(spec_block_key(a).skip(6) =~= hex_digits(a as nat, 16));
        assert(spec_block_key(b).skip(6) =~= hex_digits(b as nat, 16));
    }
    if spec_batch_key(a) == spec_batch_key(b) {
        assert(spec_batch_key(a).skip(6) =~= hex_digits(a as nat, 16));
        assert(spec_batch_key(b).skip(6) =~= hex_digits(b as nat, 16));
    }
}

} // verus!
