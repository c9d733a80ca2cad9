//! The content-addressed module store: the capability interface, a verified
//! in-memory conforming store, and the deterministic hash-derived path under
//! which a filesystem-backed store keeps each entry.

use vstd::prelude::*;
use vstd::slice::slice_to_vec;

verus! {

/// Failure of a module store operation.
#[derive(Debug, Clone, Copy, PartialEq, Eq, Structural)]
pub enum StoreError {
    /// No entry exists for the identifier.
    NotFound,
    /// The underlying storage faulted.
    IoError,
}

/// A content-addressed module store: a durable map from module identifier to
/// entry bytes. A filesystem-backed implementation may fault with `IoError`;
/// an absent entry is always reported as `NotFound`, never as empty bytes.
pub trait ModuleStore: Sized {
    /// The stored contents, as a map from identifier to bytes.
    open spec fn contents(&self) -> Map<Seq<char>, Seq<u8>> {
        Map::empty()
    }

    /// The full entry bytes for `specifier`; fails with `NotFound` exactly
    /// when no entry exists.
    ///
    /// A durable implementation that cannot read a present entry reports it
    /// as `NotFound` too: the entry is then not in the store's contents, the
    /// loader refetches, and the write overwrites the unreadable entry. This
    /// is what lets a cached, readable entry always short-circuit the fetch.
    fn get(&self, specifier: &str) -> (r: Result<Vec<u8>, StoreError>)
        ensures
            r is Ok <==> self.contents().contains_key(specifier@),
            r is Ok ==> r->Ok_0@ == self.contents()[specifier@],
            r is Err ==> r == Result::<Vec<u8>, StoreError>::Err(StoreError::NotFound),
    ;

    /// Write `code` under `specifier`, overwriting any existing entry
    /// unconditionally; on failure the contents are unchanged.
    fn put(&mut self, specifier: String, code: &[u8]) -> (r: Result<(), StoreError>)
        ensures
            r is Ok ==> final(self).contents() == old(self).contents().insert(
                specifier@,
                code@,
            ),
            r is Err ==> final(self).contents() == old(self).contents() && r->Err_0
                == StoreError::IoError,
    ;
}

/// Model of a store entry list: a map in which the first entry carrying a
/// key wins, matching the executable lookup order.
pub open spec fn store_view(es: Seq<(String, Vec<u8>)>) -> Map<Seq<char>, Seq<u8>>
    decreases es,
{
    if es.len() == 0 {
        Map::empty()
    } else {
        store_view(es.drop_first()).insert(es[0].0@, es[0].1@)
    }
}

/// The model contains a key exactly when some entry carries it.
proof fn lemma_store_view_contains(es: Seq<(String, Vec<u8>)>, k: Seq<char>)
    ensures
        store_view(es).contains_key(k) <==> exists|j: int|
            0 <= j < es.len() && (#[trigger] es[j]).0@ == k,
    decreases es.len(),
{
    if es.len() == 0 {
    } else {
        lemma_store_view_contains(es.drop_first(), k);
        if es[0].0@ == k {
        } else {
            if exists|j: int| 0 <= j < es.drop_first().len() && (#[trigger] es.drop_first()[j]).0@
                == k {
                let j = choose|j: int|
                    0 <= j < es.drop_first().len() && (#[trigger] es.drop_first()[j]).0@ == k;
                assert(es[j + 1].0@ == k);
            } else {
                if exists|j: int| 0 <= j < es.len() && (#[trigger] es[j]).0@ == k {
                    let j = choose|j: int| 0 <= j < es.len() && (#[trigger] es[j]).0@ == k;
                    assert(es.drop_first()[j - 1].0@ == k);
                }
            }
        }
    }
}

/// The model's value at the key of a first-occurrence entry is that entry's
/// bytes.
proof fn lemma_store_view_at(es: Seq<(String, Vec<u8>)>, idx: int)
    requires
        0 <= idx < es.len(),
        forall|j: int| 0 <= j < idx ==> (#[trigger] es[j]).0@ != es[idx].0@,
    ensures
        store_view(es).contains_key(es[idx].0@),
        store_view(es)[es[idx].0@] == es[idx].1@,
    decreases es.len(),
{
    if idx == 0 {
    } else {
        assert(forall|j: int|
            0 <= j < idx - 1 ==> (#[trigger] es.drop_first()[j]).0@ != es.drop_first()[idx
                - 1].0@);
        lemma_store_view_at(es.drop_first(), idx - 1);
        assert(es[0].0@ != es[idx].0@);
    }
}

/// Replacing the value of a first-occurrence entry updates the model at that
/// key alone.
proof fn lemma_store_view_update(es: Seq<(String, Vec<u8>)>, idx: int, e2: (String, Vec<u8>))
    requires
        0 <= idx < es.len(),
        forall|j: int| 0 <= j < idx ==> (#[trigger] es[j]).0@ != es[idx].0@,
        e2.0@ == es[idx].0@,
    ensures
        store_view(es.update(idx, e2)) == store_view(es).insert(e2.0@, e2.1@),
    decreases es.len(),
{
    if idx == 0 {
        assert(es.update(0, e2).drop_first() =~= es.drop_first());
        assert(store_view(es.update(0, e2)) =~= store_view(es).insert(e2.0@, e2.1@));
    } else {
        assert(es.update(idx, e2).drop_first() =~= es.drop_first().update(idx - 1, e2));
        assert(forall|j: int|
            0 <= j < idx - 1 ==> (#[trigger] es.drop_first()[j]).0@ != es.drop_first()[idx
                - 1].0@);
        lemma_store_view_update(es.drop_first(), idx - 1, e2);
        assert(es[0].0@ != e2.0@);
        assert(store_view(es.update(idx, e2)) =~= store_view(es).insert(e2.0@, e2.1@));
    }
}

/// Appending an entry under a fresh key adds it to the model.
proof fn lemma_store_view_push(es: Seq<(String, Vec<u8>)>, e: (String, Vec<u8>))
    requires
        forall|j: int| 0 <= j < es.len() ==> (#[trigger] es[j]).0@ != e.0@,
    ensures
        store_view(es.push(e)) == store_view(es).insert(e.0@, e.1@),
    decreases es.len(),
{
    if es.len() == 0 {
        assert(es.push(e).drop_first() =~= es);
        assert(store_view(es.push(e)) =~= store_view(es).insert(e.0@, e.1@));
    } else {
        assert(es.push(e).drop_first() =~= es.drop_first().push(e));
        assert(forall|j: int|
            0 <= j < es.drop_first().len() ==> (#[trigger] es.drop_first()[j]).0@ != e.0@);
        lemma_store_view_push(es.drop_first(), e);
        assert(es[0].0@ != e.0@);
        assert(store_view(es.push(e)) =~= store_view(es).insert(e.0@, e.1@));
    }
}

/// An in-memory module store conforming to the store contract; useful on its
/// own and as the reference model of the filesystem-backed variant.
#[derive(Debug)]
pub struct MemModuleStore {
    entries: Vec<(String, Vec<u8>)>,
}

impl MemModuleStore {
    /// An empty store.
    pub fn new() -> (r: Self)
        ensures
            r.contents() == Map::<Seq<char>, Seq<u8>>::empty(),
    {
        MemModuleStore { entries: Vec::new() }
    }

    /// First entry carrying `key`, if any.
    fn find(&self, key: &str) -> (r: Option<usize>)
        ensures
            match r {
                Some(i) => 0 <= i < self.entries@.len() && self.entries@[i as int].0@ == key@
                    && forall|j: int| 0 <= j < i ==> (#[trigger] self.entries@[j]).0@ != key@,
                None => forall|j: int|
                    0 <= j < self.entries@.len() ==> (#[trigger] self.entries@[j]).0@ != key@,
            },
    {
        let mut i: usize = 0;
        while i < self.entries.len()
            invariant
                i <= self.entries@.len(),
                forall|j: int| 0 <= j < i ==> (#[trigger] self.entries@[j]).0@ != key@,
            decreases self.entries@.len() - i,
        {
            let other = String::from_str(key);
            if self.entries[i].0 == other {
                return Some(i);
            }
            i += 1;
        }
        None
    }
}

impl Default for MemModuleStore {
    /// An empty store.
    fn default() -> (r: Self)
        ensures
            r.contents() == Map::<Seq<char>, Seq<u8>>::empty(),
    {
        MemModuleStore { entries: Vec::new() }
    }
}

impl ModuleStore for MemModuleStore {
    /// First entry wins, as in the executable lookup.
    closed spec fn contents(&self) -> Map<Seq<char>, Seq<u8>> {
        store_view(self.entries@)
    }

    fn get(&self, specifier: &str) -> (r: Result<Vec<u8>, StoreError>) {
        match self.find(specifier) {
            Some(i) => {
                proof {
                    lemma_store_view_at(self.entries@, i as int);
                }
                Ok(slice_to_vec(self.entries[i].1.as_slice()))
            },
            None => {
                proof {
                    lemma_store_view_contains(self.entries@, specifier@);
                }
                Err(StoreError::NotFound)
            },
        }
    }

    fn put(&mut self, specifier: String, code: &[u8]) -> (r: Result<(), StoreError>)
        ensures
            r is Ok,
    {
        let bytes = slice_to_vec(code);
        let ghost pre = self.entries@;
        match self.find(specifier.as_str()) {
            Some(i) => {
                self.entries.remove(i);
                self.entries.insert(i, (specifier, bytes));
                proof {
                    assert(self.entries@ =~= pre.update(i as int, self.entries@[i as int]));
                    lemma_store_view_update(pre, i as int, self.entries@[i as int]);
                }
            },
            None => {
                self.entries.push((specifier, bytes));
                proof {
                    lemma_store_view_push(pre, self.entries@[pre.len() as int]);
                }
            },
        }
        Ok(())
    }
}

pub const FNV_OFFSET: u64 = 0xcbf2_9ce4_8422_2325;

pub const FNV_PRIME: u64 = 0x100_0000_01b3;

/// The FNV-1a hash of the first `n` bytes.
pub open spec fn fnv_hash(bytes: Seq<u8>, n: int) -> u64
    decreases n,
{
    if n <= 0 {
        FNV_OFFSET
    } else {
        vstd::wrapping::u64_specs::wrapping_mul(
            fnv_hash(bytes, n - 1) ^ (bytes[n - 1] as u64),
            FNV_PRIME,
        )
    }
}

/// The `i`-th hex digit position of `h`, most significant first.
pub open spec fn spec_nibble(h: u64, i: int) -> u64 {
    (h >> (((15 - i) * 4) as u64)) & 0xf
}

/// The lower-case hex digit spelling `n`.
pub open spec fn hex_digit_of(n: u64) -> Seq<char> {
    if n == 0 {
        "0"@
    } else if n == 1 {
        "1"@
    } else if n == 2 {
        "2"@
    } else if n == 3 {
        "3"@
    } else if n == 4 {
        "4"@
    } else if n == 5 {
        "5"@
    } else if n == 6 {
        "6"@
    } else if n == 7 {
        "7"@
    } else if n == 8 {
        "8"@
    } else if n == 9 {
        "9"@
    } else if n == 10 {
        "a"@
    } else if n == 11 {
        "b"@
    } else if n == 12 {
        "c"@
    } else if n == 13 {
        "d"@
    } else if n == 14 {
        "e"@
    } else {
        "f"@
    }
}

/// The hex digits of `h` from position `lo` up to position `hi`.
pub open spec fn hex_of(h: u64, lo: int, hi: int) -> Seq<char>
    decreases hi - lo,
{
    if lo >= hi {
        Seq::empty()
    } else {
        hex_of(h, lo, hi - 1) + hex_digit_of(spec_nibble(h, hi - 1))
    }
}

/// The entry path for `key` under `base`: a two-digit fan-out directory from
/// the hash of the key, then the remaining fourteen digits as the file name.
pub open spec fn spec_hash_path(base: Seq<char>, key: Seq<char>) -> Seq<char> {
    let h = fnv_hash(
        vstd::utf8::encode_utf8(key),
        vstd::utf8::encode_utf8(key).len() as int,
    );
    base + "/"@ + hex_of(h, 0, 2) + "/"@ + hex_of(h, 2, 16)
}

/// The lower-case hex digit spelling `n`.
fn hex_digit_str(n: u64) -> (r: &'static str)
    requires
        n < 16,
    ensures
        r@ == hex_digit_of(n),
{
    match n {
        0 => "0",
        1 => "1",
        2 => "2",
        3 => "3",
        4 => "4",
        5 => "5",
        6 => "6",
        7 => "7",
        8 => "8",
        9 => "9",
        10 => "a",
        11 => "b",
        12 => "c",
        13 => "d",
        14 => "e",
        _ => "f",
    }
}

/// The `k`-th hex digit position of `h`, most significant first.
fn nibble_of(h: u64, k: usize) -> (r: u64)
    requires
        k < 16,
    ensures
        r == spec_nibble(h, k as int),
        r < 16,
{
    let shift: u64 = ((15 - k) as u64) * 4;
    let r = (h >> shift) & 0xf;
    proof {
        assert((h >> shift) & 0xf < 16) by (bit_vector);
    }
    r
}

/// The deterministic storage path for a module identifier: a pure function
/// of the key, with a fixed two-level fan-out under `base`.
pub fn to_hash_path(base: &str, key: &str) -> (r: String)
    ensures
        r@ == spec_hash_path(base@, key@),
{
    let bytes = key.as_bytes_vec();
    let ghost bs = bytes@;
    let mut h: u64 = FNV_OFFSET;
    let mut i: usize = 0;
    while i < bytes.len()
        invariant
            bytes@ == bs,
            i <= bs.len(),
            h == fnv_hash(bs, i as int),
        decreases bs.len() - i,
    {
        h = (h ^ (bytes[i] as u64)).wrapping_mul(FNV_PRIME);
        i += 1;
    }
    let mut out = String::from_str(base);
    out.append("/");
    proof {
        assert(out@ =~= base@ + "/"@ + hex_of(h, 0, 0));
    }
    let mut k: usize = 0;
    while k < 2
        invariant
            k <= 2,
            out@ == base@ + "/"@ + hex_of(h, 0, k as int),
        decreases 2 - k,
    {
        let n = nibble_of(h, k);
        out.append(hex_digit_str(n));
        proof {
            assert(out@ =~= base@ + "/"@ + hex_of(h, 0, k as int + 1));
        }
        k += 1;
    }
    out.append("/");
    proof {
        assert(out@ =~= base@ + "/"@ + hex_of(h, 0, 2) + "/"@ + hex_of(h, 2, 2));
    }
    let mut k2: usize = 2;
    while k2 < 16
        invariant
            2 <= k2 <= 16,
            out@ == base@ + "/"@ + hex_of(h, 0, 2) + "/"@ + hex_of(h, 2, k2 as int),
        decreases 16 - k2,
    {
        let n = nibble_of(h, k2);
        out.append(hex_digit_str(n));
        proof {
            assert(out@ =~= base@ + "/"@ + hex_of(h, 0, 2) + "/"@ + hex_of(h, 2, k2 as int + 1));
        }
        k2 += 1;
    }
    proof {
        assert(bs == vstd::utf8::encode_utf8(key@));
    }
    out
}

/// Cache round-trip: writing bytes under an identifier and reading that
/// identifier back yields exactly those bytes, for any prior store contents.
pub proof fn lemma_store_round_trip(m: Map<Seq<char>, Seq<u8>>, id: Seq<char>, bytes: Seq<u8>)
    ensures
        m.insert(id, bytes).contains_key(id),
        m.insert(id, bytes)[id] == bytes,
{
}

} // verus!
