//! The persistent store the engine keeps its local Plog in.
//!
//! `WalletStorage` is the capability the engine consumes: key/value byte
//! storage with save, load, delete and a containment test.  Platform code
//! supplies an implementation; `MemoryStorage` is one the library proves
//! correct, and the one every test runs on.

use crate::b64::{b64_decode, b64_decode_of, b64_encode, b64_of};
use crate::Error;
use vstd::prelude::*;
use vstd::slice::slice_to_vec;
use vstd::string::StringExecFns;

verus! {

/// Key/value byte storage.  An implementation is described by `contents`,
/// the map of stored values; each operation says how it reads or rewrites
/// that map, and a failed operation leaves it unchanged.
pub trait WalletStorage: Sized {
    spec fn contents(&self) -> Map<Seq<char>, Seq<u8>>;

    fn save(&mut self, key: &str, data: &[u8]) -> (r: Result<(), String>)
        ensures
            r is Ok ==> final(self).contents() == old(self).contents().insert(key@, data@),
            r is Err ==> final(self).contents() == old(self).contents(),
    ;

    fn load(&self, key: &str) -> (r: Result<Vec<u8>, String>)
        ensures
            r matches Ok(data) ==> self.contents().contains_key(key@) && data@ == self.contents()[key@],
    ;

    fn delete(&mut self, key: &str) -> (r: Result<(), String>)
        ensures
            r is Ok ==> final(self).contents() == old(self).contents().remove(key@),
            r is Err ==> final(self).contents() == old(self).contents(),
    ;

    fn contains(&self, key: &str) -> (r: bool)
        ensures
            r == self.contents().contains_key(key@),
    ;
}

/// The stored map described by a list of key/value pairs; a later pair for
/// the same key wins.
spec fn map_of(s: Seq<(String, Vec<u8>)>) -> Map<Seq<char>, Seq<u8>>
    decreases s.len(),
{
    if s.len() == 0 {
        Map::empty()
    } else {
        map_of(s.drop_last()).insert(s.last().0@, s.last().1@)
    }
}

proof fn lemma_map_of_found(s: Seq<(String, Vec<u8>)>, i: int, k: Seq<char>)
    requires
        0 <= i < s.len(),
        s[i].0@ == k,
        forall|j: int| i < j < s.len() ==> s[j].0@ != k,
    ensures
        map_of(s).contains_key(k),
        map_of(s)[k] == s[i].1@,
    decreases s.len(),
{
    if i < s.len() - 1 {
        lemma_map_of_found(s.drop_last(), i, k);
    }
}

proof fn lemma_map_of_absent(s: Seq<(String, Vec<u8>)>, k: Seq<char>)
    requires
        forall|j: int| 0 <= j < s.len() ==> s[j].0@ != k,
    ensures
        !map_of(s).contains_key(k),
    decreases s.len(),
{
    if s.len() > 0 {
        lemma_map_of_absent(s.drop_last(), k);
    }
}

proof fn lemma_map_of_contains(s: Seq<(String, Vec<u8>)>, i: int, k: Seq<char>)
    requires
        0 <= i < s.len(),
        s[i].0@ == k,
    ensures
        map_of(s).contains_key(k),
    decreases s.len(),
{
    if i < s.len() - 1 {
        lemma_map_of_contains(s.drop_last(), i, k);
    }
}

/// In-memory key/value byte storage, proved to meet `WalletStorage`.
pub struct MemoryStorage {
    entries: Vec<(String, Vec<u8>)>,
}

impl MemoryStorage {
    pub fn new() -> (r: MemoryStorage)
        ensures
            r.contents() == Map::<Seq<char>, Seq<u8>>::empty(),
    {
        MemoryStorage { entries: Vec::new() }
    }

    /// Drops every pair stored under `key`, leaving the rest in order.
    fn remove_key(&mut self, key: &str)
        ensures
            map_of(final(self).entries@) == map_of(old(self).entries@).remove(key@),
    {
        let kstr = String::from_str(key);
        let ghost orig = self.entries@;
        let mut kept: Vec<(String, Vec<u8>)> = Vec::new();
        let mut i: usize = 0;
        let n = self.entries.len();
        while i < n
            invariant
                i <= n,
                n == self.entries.len(),
                self.entries@ == orig,
                kstr@ == key@,
                map_of(kept@) == map_of(orig.take(i as int)).remove(key@),
            decreases n - i,
        {
            proof {
                assert(orig.take(i + 1).drop_last() =~= orig.take(i as int));
                assert(orig.take(i + 1).last() == orig[i as int]);
            }
            let e = &self.entries[i];
            if e.0 == kstr {
                proof {
                    assert(map_of(orig.take(i + 1)).remove(key@) =~= map_of(
                        orig.take(i as int),
                    ).remove(key@));
                }
            } else {
                let ghost before = kept@;
                kept.push((e.0.clone(), e.1.clone()));
                proof {
                    assert(kept@.last().0@ == orig[i as int].0@);
                    assert(kept@.last().1@ =~= orig[i as int].1@);
                    assert(kept@.drop_last() == before);
                    assert(map_of(kept@) =~= map_of(orig.take(i + 1)).remove(key@));
                }
            }
            i = i + 1;
        }
        proof {
            assert(orig.take(n as int) =~= orig);
        }
        self.entries = kept;
    }
}

impl WalletStorage for MemoryStorage {
    closed spec fn contents(&self) -> Map<Seq<char>, Seq<u8>> {
        map_of(self.entries@)
    }

    fn save(&mut self, key: &str, data: &[u8]) -> (r: Result<(), String>) {
        self.remove_key(key);
        let ghost kept = self.entries@;
        let kstr = String::from_str(key);
        self.entries.push((kstr, slice_to_vec(data)));
        proof {
            assert(self.entries@.drop_last() =~= kept);
            assert(self.entries@.last().0@ == key@);
            assert(self.entries@.last().1@ == data@);
            assert(map_of(self.entries@) =~= map_of(old(self).entries@).insert(key@, data@));
        }
        Ok(())
    }

    fn load(&self, key: &str) -> (r: Result<Vec<u8>, String>) {
        let kstr = String::from_str(key);
        let mut i: usize = self.entries.len();
        while i > 0
            invariant
                i <= self.entries.len(),
                kstr@ == key@,
                forall|j: int| i <= j < self.entries@.len() ==> self.entries@[j].0@ != key@,
            decreases i,
        {
            i = i - 1;
            let e = &self.entries[i];
            if e.0 == kstr {
                proof {
                    lemma_map_of_found(self.entries@, i as int, key@);
                }
                let data = e.1.clone();
                proof {
                    assert(data@ =~= e.1@);
                }
                return Ok(data);
            }
        }
        proof {
            lemma_map_of_absent(self.entries@, key@);
        }
        Err(String::from_str("no value is stored under this key"))
    }

    fn delete(&mut self, key: &str) -> (r: Result<(), String>) {
        self.remove_key(key);
        Ok(())
    }

    fn contains(&self, key: &str) -> (r: bool) {
        let kstr = String::from_str(key);
        let mut i: usize = 0;
        let n = self.entries.len();
        while i < n
            invariant
                i <= n,
                n == self.entries.len(),
                kstr@ == key@,
                forall|j: int| 0 <= j < i ==> self.entries@[j].0@ != key@,
            decreases n - i,
        {
            let e = &self.entries[i];
            if e.0 == kstr {
                proof {
                    lemma_map_of_contains(self.entries@, i as int, key@);
                }
                return true;
            }
            i = i + 1;
        }
        proof {
            lemma_map_of_absent(self.entries@, key@);
        }
        false
    }
}

/// A storage provider that carries a chosen implementation and forwards to
/// it unchanged.
pub struct StorageProvider<S: WalletStorage> {
    inner: S,
}

impl<S: WalletStorage> StorageProvider<S> {
    pub closed spec fn contents(&self) -> Map<Seq<char>, Seq<u8>> {
        self.inner.contents()
    }

    pub fn new(storage: S) -> (r: StorageProvider<S>)
        ensures
            r.contents() == storage.contents(),
    {
        StorageProvider { inner: storage }
    }

    pub fn save(&mut self, key: &str, data: &[u8]) -> (r: Result<(), String>)
        ensures
            r is Ok ==> final(self).contents() == old(self).contents().insert(key@, data@),
            r is Err ==> final(self).contents() == old(self).contents(),
    {
        self.inner.save(key, data)
    }

    pub fn load(&self, key: &str) -> (r: Result<Vec<u8>, String>)
        ensures
            r matches Ok(data) ==> self.contents().contains_key(key@) && data@
                == self.contents()[key@],
    {
        self.inner.load(key)
    }

    pub fn delete(&mut self, key: &str) -> (r: Result<(), String>)
        ensures
            r is Ok ==> final(self).contents() == old(self).contents().remove(key@),
            r is Err ==> final(self).contents() == old(self).contents(),
    {
        self.inner.delete(key)
    }

    pub fn contains(&self, key: &str) -> (r: bool)
        ensures
            r == self.contents().contains_key(key@),
    {
        self.inner.contains(key)
    }
}

/// The value codec of browser-backed storage, which can only hold strings:
/// binary values travel as unpadded base64 text.  The browser store itself
/// lives with the platform code; this type owns the codec.
pub struct WebStorage;

impl WebStorage {
    pub fn new() -> (r: WebStorage) {
        WebStorage
    }

    /// The textual form a binary value takes in a string-valued store;
    /// decoding it yields the value back.
    pub fn encode_value(&self, data: &[u8]) -> (r: String)
        requires
            data@.len() < usize::MAX as int / 4,
        ensures
            r@ == b64_of(data@),
            b64_decode_of(r@) == Some(data@),
    {
        b64_encode(data)
    }

    /// Recovers a binary value from its textual form; text that no value
    /// encodes to is rejected.
    pub fn decode_value(&self, s: &str) -> (r: Result<Vec<u8>, Error>)
        ensures
            r matches Ok(b) ==> b64_decode_of(s@) == Some(b@),
            r is Err ==> b64_decode_of(s@) is None && r == Err::<Vec<u8>, Error>(
                Error::InvalidEncoding,
            ),
    {
        match b64_decode(s) {
            Some(b) => Ok(b),
            None => Err(Error::InvalidEncoding),
        }
    }
}

/// Native storage: remembers the directory wallet data lives in.  Creating
/// the directory and touching files is platform work; the engine only needs
/// the place.
pub struct DesktopStorage {
    data_dir: String,
}

impl View for DesktopStorage {
    type V = Seq<char>;

    closed spec fn view(&self) -> Seq<char> {
        self.data_dir@
    }
}

impl DesktopStorage {
    pub fn from_dir(data_dir: String) -> (r: DesktopStorage)
        ensures
            r@ == data_dir@,
    {
        DesktopStorage { data_dir }
    }

    /// The directory where the wallet data is stored.
    pub fn dir(&self) -> (r: String)
        ensures
            r@ == self@,
    {
        self.data_dir.clone()
    }
}

} // verus!
