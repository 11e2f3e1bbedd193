//! A durable, generic, indexed key-value store.
//!
//! The store maps an index (a raw byte string) to the encoded bytes of one
//! record.  How the index is derived from a record, and how a record is laid
//! out as bytes, are supplied by the record type through the [`Indexer`] and
//! [`Record`] traits; the durable engine itself is `sled`, reached only
//! through the trusted wrappers below.  Every operation is specified against
//! the abstract map [`db_view`] of the underlying database.

use vstd::prelude::*;

verus! {

/// A storage-layer failure.
#[derive(Clone, Copy, Debug, PartialEq, Eq, Structural)]
pub enum StoreError {
    /// The underlying storage medium failed.
    Io,
    /// Stored bytes do not decode as the expected record type.
    Format,
}

/// A policy that derives the storage index of a record from the record
/// itself.
pub trait Indexer<T: View>: Sized {
    /// The index of a record with model `v`.
    spec fn spec_index_of(&self, v: T::V) -> Seq<u8>;

    /// Derive the storage index of `value`.
    fn get_index(&self, value: &T) -> (r: Vec<u8>)
        ensures
            r@ == self.spec_index_of(value@),
    ;
}

/// A record type that can be laid out as bytes and recovered from them.
pub trait Record: View + Sized {
    /// The values the store accepts.
    spec fn wf(&self) -> bool;

    /// The byte layout of a record with model `v`.
    spec fn enc_of(v: Self::V) -> Seq<u8>;

    /// The record model recovered from stored bytes, if they decode.
    spec fn dec_of(b: Seq<u8>) -> Option<Self::V>;

    /// Encoding loses nothing: decoding the layout of a record yields the
    /// record again.
    proof fn lemma_codec_round_trip(&self)
        requires
            self.wf(),
        ensures
            Self::dec_of(Self::enc_of(self@)) == Some(self@),
    ;

    /// Lay the record out as bytes.
    fn encode(&self) -> (r: Vec<u8>)
        requires
            self.wf(),
        ensures
            r@ == Self::enc_of(self@),
    ;

    /// Recover a record from stored bytes.
    fn decode(b: &[u8]) -> (r: Option<Self>)
        ensures
            match r {
                Some(v) => Self::dec_of(b@) == Some(v@) && v.wf(),
                None => Self::dec_of(b@) is None,
            },
    ;
}

#[verifier::external_type_specification]
#[verifier::external_body]
pub struct ExSledDb(sled::Db);

/// The records a database holds: a map from index bytes to value bytes.
pub uninterp spec fn db_view(db: sled::Db) -> Map<Seq<u8>, Seq<u8>>;

/// Relies on sled::open: opens the durable store rooted at `path`, creating
/// it if it does not exist.  What it holds is whatever the location held.
#[verifier::external_body]
fn db_open(path: &str) -> (r: Result<sled::Db, StoreError>)
    ensures
        r matches Ok(db) ==> db_view(db).dom().finite(),
{
    sled::open(path).map_err(|_| StoreError::Io)
}

/// Relies on sled::Tree::insert: maps the key to the value, returning the
/// value previously at the key, if any.
#[verifier::external_body]
fn db_insert(db: &mut sled::Db, key: &Vec<u8>, value: Vec<u8>) -> (r: Result<
    Option<Vec<u8>>,
    StoreError,
>)
    ensures
        r matches Ok(prev) ==> {
            &&& db_view(*final(db)) == db_view(*old(db)).insert(key@, value@)
            &&& match prev {
                Some(p) => db_view(*old(db)).dom().contains(key@) && db_view(*old(db))[key@]
                    == p@,
                None => !db_view(*old(db)).dom().contains(key@),
            }
        },
        db_view(*final(db)).dom().finite() == db_view(*old(db)).dom().finite(),
{
    match db.insert(key.as_slice(), value) {
        Ok(prev) => Ok(prev.map(|p| p.to_vec())),
        Err(_) => Err(StoreError::Io),
    }
}

/// Relies on sled::Tree::get: returns the value at the key, if any.
#[verifier::external_body]
fn db_get(db: &sled::Db, key: &Vec<u8>) -> (r: Result<Option<Vec<u8>>, StoreError>)
    ensures
        r matches Ok(cur) ==> match cur {
            Some(v) => db_view(*db).dom().contains(key@) && db_view(*db)[key@] == v@,
            None => !db_view(*db).dom().contains(key@),
        },
        r matches Err(e) ==> e == StoreError::Io,
{
    match db.get(key.as_slice()) {
        Ok(cur) => Ok(cur.map(|v| v.to_vec())),
        Err(_) => Err(StoreError::Io),
    }
}

/// Relies on sled::Tree::remove: unmaps the key, returning the value
/// previously at it, if any.
#[verifier::external_body]
fn db_remove(db: &mut sled::Db, key: &Vec<u8>) -> (r: Result<Option<Vec<u8>>, StoreError>)
    ensures
        r matches Ok(prev) ==> {
            &&& db_view(*final(db)) == db_view(*old(db)).remove(key@)
            &&& match prev {
                Some(p) => db_view(*old(db)).dom().contains(key@) && db_view(*old(db))[key@]
                    == p@,
                None => !db_view(*old(db)).dom().contains(key@),
            }
        },
        db_view(*final(db)).dom().finite() == db_view(*old(db)).dom().finite(),
{
    match db.remove(key.as_slice()) {
        Ok(prev) => Ok(prev.map(|p| p.to_vec())),
        Err(_) => Err(StoreError::Io),
    }
}

/// Relies on sled::Tree::len: counts the records the database holds.
#[verifier::external_body]
fn db_len(db: &sled::Db) -> (r: usize)
    ensures
        r == db_view(*db).len(),
{
    db.len()
}

/// Relies on sled::Tree::iter: hands out every record as a key-value pair.
/// Each key appears once; the order is the engine's own.
#[verifier::external_body]
fn db_entries(db: &sled::Db) -> (r: Result<Vec<(Vec<u8>, Vec<u8>)>, StoreError>)
    ensures
        r matches Ok(pairs) ==> {
            &&& pairs@.len() == db_view(*db).len()
            &&& forall|i: int|
                0 <= i < pairs@.len() ==> db_view(*db).dom().contains(#[trigger] pairs@[i].0@)
                    && db_view(*db)[pairs@[i].0@] == pairs@[i].1@
            &&& forall|i: int, j: int|
                0 <= i < j < pairs@.len() ==> #[trigger] pairs@[i].0@ != #[trigger] pairs@[j].0@
        },
{
    db.iter().map(
        |kv: Result<(sled::IVec, sled::IVec), sled::Error>|
            kv.map(|(k, v)| (k.to_vec(), v.to_vec())).map_err(|_| StoreError::Io),
    ).collect()
}

/// Relies on sled::Tree::compare_and_swap: atomically replaces the value at
/// the key with `new` exactly when the current value equals `expected`
/// (`None` standing for an absent key); a `new` of `None` unmaps the key.
/// On a mismatch nothing changes and the inner result is the error.
#[verifier::external_body]
fn db_cas(
    db: &mut sled::Db,
    key: &Vec<u8>,
    expected: Option<&Vec<u8>>,
    new: Option<Vec<u8>>,
) -> (r: Result<Result<(), ()>, StoreError>)
    ensures
        r matches Ok(inner) ==> match inner {
            Ok(()) => {
                &&& match expected {
                    Some(e) => db_view(*old(db)).dom().contains(key@) && db_view(*old(db))[key@]
                        == e@,
                    None => !db_view(*old(db)).dom().contains(key@),
                }
                &&& match new {
                    Some(n) => db_view(*final(db)) == db_view(*old(db)).insert(key@, n@),
                    None => db_view(*final(db)) == db_view(*old(db)).remove(key@),
                }
            },
            Err(()) => {
                &&& db_view(*final(db)) == db_view(*old(db))
                &&& !match expected {
                    Some(e) => db_view(*old(db)).dom().contains(key@) && db_view(*old(db))[key@]
                        == e@,
                    None => !db_view(*old(db)).dom().contains(key@),
                }
            },
        },
        r matches Err(e) ==> e == StoreError::Io,
        db_view(*final(db)).dom().finite() == db_view(*old(db)).dom().finite(),
{
    match db.compare_and_swap(key.as_slice(), expected.map(|e| e.as_slice()), new) {
        Ok(Ok(())) => Ok(Ok(())),
        Ok(Err(_)) => Ok(Err(())),
        Err(_) => Err(StoreError::Io),
    }
}

/// A durable mapping from an index to one record of type `T`, abstracted
/// over how the index is derived.
pub struct Storage<T: Record, F: Indexer<T>> {
    db: sled::Db,
    indexer: F,
    _marker: core::marker::PhantomData<T>,
}

impl<T: Record, F: Indexer<T>> Storage<T, F> {
    /// The records the store holds, as a map from index bytes to the bytes
    /// stored at them.
    pub closed spec fn contents(&self) -> Map<Seq<u8>, Seq<u8>> {
        db_view(self.db)
    }

    /// The indexing strategy the store was opened with.
    pub closed spec fn strategy(&self) -> F {
        self.indexer
    }

    /// The store always holds finitely many records.
    pub closed spec fn wf(&self) -> bool {
        self.contents().dom().finite()
    }

    /// Opens or creates a durable store rooted at `path`.
    pub fn open(path: &str, indexer: F) -> (r: Result<Self, StoreError>)
        ensures
            r matches Ok(st) ==> st.strategy() == indexer && st.wf(),
    {
        let db = db_open(path)?;
        Ok(Storage { db, indexer, _marker: core::marker::PhantomData })
    }

    /// The number of records the store holds.
    pub fn len(&self) -> (r: usize)
        ensures
            r == self.contents().len(),
    {
        db_len(&self.db)
    }

    /// Inserts or replaces the record at the index derived from `value`:
    /// upsert semantics, the last writer wins.
    pub fn set(&mut self, value: T) -> (r: Result<(), StoreError>)
        requires
            value.wf(),
        ensures
            final(self).strategy() == old(self).strategy(),
            final(self).wf() == old(self).wf(),
            r is Ok ==> final(self).contents() == old(self).contents().insert(
                old(self).strategy().spec_index_of(value@),
                T::enc_of(value@),
            ),
    {
        let index = self.indexer.get_index(&value);
        let bytes = value.encode();
        match db_insert(&mut self.db, &index, bytes) {
            Ok(_) => Ok(()),
            Err(e) => Err(e),
        }
    }

    /// Point lookup: the record at `index`, or `None` if the index is
    /// absent.  Fails with `StoreError::Format` exactly when the stored
    /// bytes do not decode as `T`.
    pub fn get(&self, index: &Vec<u8>) -> (r: Result<Option<T>, StoreError>)
        ensures
            match r {
                Ok(Some(v)) => self.contents().dom().contains(index@) && T::dec_of(
                    self.contents()[index@],
                ) == Some(v@) && v.wf(),
                Ok(None) => !self.contents().dom().contains(index@),
                Err(StoreError::Format) => self.contents().dom().contains(index@) && T::dec_of(
                    self.contents()[index@],
                ) is None,
                Err(StoreError::Io) => true,
            },
    {
        match db_get(&self.db, index)? {
            Some(bytes) => match T::decode(bytes.as_slice()) {
                Some(v) => Ok(Some(v)),
                None => Err(StoreError::Format),
            },
            None => Ok(None),
        }
    }

    /// Removes the record at `index` if one is present, and reports whether
    /// anything was removed.  Removing an absent index is not a failure and
    /// changes nothing.
    pub fn remove(&mut self, index: &Vec<u8>) -> (r: Result<bool, StoreError>)
        ensures
            final(self).strategy() == old(self).strategy(),
            final(self).wf() == old(self).wf(),
            match r {
                Ok(true) => old(self).contents().dom().contains(index@) && final(self).contents()
                    == old(self).contents().remove(index@),
                Ok(false) => !old(self).contents().dom().contains(index@) && final(self).contents()
                    == old(self).contents(),
                Err(_) => true,
            },
    {
        match db_remove(&mut self.db, index) {
            Ok(Some(_)) => Ok(true),
            Ok(None) => {
                proof {
                    assert(old(self).contents() =~= old(self).contents().remove(index@));
                }
                Ok(false)
            },
            Err(e) => Err(e),
        }
    }

    /// Atomic read-modify-write at `index`: fetches the record there, applies
    /// `updater`, and writes the result back through the engine's
    /// compare-and-swap, so that no other write to the index can stand
    /// between the read and the write.  An absent index is left absent; a
    /// record that does not decode aborts the operation with
    /// `StoreError::Format` and nothing is written.
    pub fn update<G: Fn(T) -> T>(&mut self, index: &Vec<u8>, updater: G) -> (r: Result<
        (),
        StoreError,
    >)
        requires
            forall|v: T| v.wf() ==> #[trigger] call_requires(updater, (v,)),
            forall|v: T, w: T| #[trigger] call_ensures(updater, (v,), w) ==> w.wf(),
        ensures
            final(self).strategy() == old(self).strategy(),
            final(self).wf() == old(self).wf(),
            r is Ok ==> if old(self).contents().dom().contains(index@) {
                exists|v0: T, v1: T|
                    {
                        &&& T::dec_of(old(self).contents()[index@]) == Some(v0@)
                        &&& v0.wf()
                        &&& #[trigger] call_ensures(updater, (v0,), v1)
                        &&& final(self).contents() == old(self).contents().insert(
                            index@,
                            T::enc_of(v1@),
                        )
                    }
            } else {
                final(self).contents() == old(self).contents()
            },
            r matches Err(StoreError::Format) ==> {
                &&& old(self).contents().dom().contains(index@)
                &&& T::dec_of(old(self).contents()[index@]) is None
                &&& final(self).contents() == old(self).contents()
            },
    {
        let current = match db_get(&self.db, index) {
            Ok(c) => c,
            Err(e) => {
                return Err(e);
            },
        };
        match current {
            None => Ok(()),
            Some(bytes) => match T::decode(bytes.as_slice()) {
                None => Err(StoreError::Format),
                Some(v0) => {
                    let ghost v0g = v0;
                    let v1 = updater(v0);
                    let new_bytes = v1.encode();
                    match db_cas(&mut self.db, index, Some(&bytes), Some(new_bytes)) {
                        Ok(Ok(())) => {
                            proof {
                                assert(call_ensures(updater, (v0g,), v1));
                            }
                            Ok(())
                        },
                        // A swap mismatch would mean the record changed
                        // between the read and the write, which exclusive
                        // access rules out; it is surfaced as an engine
                        // fault.
                        Ok(Err(())) => Err(StoreError::Io),
                        Err(e) => Err(e),
                    }
                },
            },
        }
    }

    /// A full scan: every record the store holds, in the engine's own order.
    /// A record whose stored bytes do not decode appears as a
    /// `StoreError::Format` element without aborting the rest.
    pub fn iter(&self) -> (r: Result<Iter<T>, StoreError>)
        ensures
            r matches Ok(it) ==> {
                &&& it.remaining().len() == self.contents().len()
                &&& exists|keys: Seq<Seq<u8>>|
                    {
                        &&& keys.len() == it.remaining().len()
                        &&& (forall|i: int, j: int|
                            0 <= i < j < keys.len() ==> keys[i] != keys[j])
                        &&& forall|i: int|
                            0 <= i < keys.len() ==> {
                                &&& self.contents().dom().contains(#[trigger] keys[i])
                                &&& match it.remaining()[i] {
                                    Ok(v) => T::dec_of(self.contents()[keys[i]]) == Some(v@)
                                        && v.wf(),
                                    Err(e) => e == StoreError::Format && T::dec_of(
                                        self.contents()[keys[i]],
                                    ) is None,
                                }
                            }
                    }
            },
    {
        let pairs = db_entries(&self.db)?;
        let mut items: Vec<Result<T, StoreError>> = Vec::new();
        let ghost mut keys: Seq<Seq<u8>> = Seq::empty();
        let mut i: usize = 0;
        while i < pairs.len()
            invariant
                0 <= i <= pairs@.len(),
                pairs@.len() == self.contents().len(),
                forall|k: int|
                    0 <= k < pairs@.len() ==> self.contents().dom().contains(
                        #[trigger] pairs@[k].0@,
                    ) && self.contents()[pairs@[k].0@] == pairs@[k].1@,
                forall|k: int, l: int|
                    0 <= k < l < pairs@.len() ==> #[trigger] pairs@[k].0@ != #[trigger] pairs@[l].0@,
                items@.len() == i,
                keys.len() == i,
                forall|k: int| 0 <= k < i ==> #[trigger] keys[k] == pairs@[k].0@,
                forall|k: int|
                    0 <= k < i ==> match items@[k] {
                        Ok(v) => T::dec_of(self.contents()[#[trigger] keys[k]]) == Some(v@)
                            && v.wf(),
                        Err(e) => e == StoreError::Format && T::dec_of(
                            self.contents()[keys[k]],
                        ) is None,
                    },
            decreases pairs@.len() - i,
        {
            let entry = &pairs[i];
            match T::decode(entry.1.as_slice()) {
                Some(v) => items.push(Ok(v)),
                None => items.push(Err(StoreError::Format)),
            }
            proof {
                keys = keys.push(pairs@[i as int].0@);
            }
            i = i + 1;
        }
        Ok(Iter { items })
    }
}

/// A finished forward scan of a store: the records it found, handed out one
/// at a time.
pub struct Iter<T> {
    items: Vec<Result<T, StoreError>>,
}

impl<T> Iter<T> {
    /// The elements not yet handed out, in order.
    pub closed spec fn remaining(&self) -> Seq<Result<T, StoreError>> {
        self.items@
    }

    /// Hands out the next element, or `None` when the scan is exhausted.
    pub fn next(&mut self) -> (r: Option<Result<T, StoreError>>)
        ensures
            match r {
                Some(item) => {
                    &&& old(self).remaining().len() > 0
                    &&& item == old(self).remaining()[0]
                    &&& final(self).remaining() == old(self).remaining().drop_first()
                },
                None => {
                    &&& old(self).remaining().len() == 0
                    &&& final(self).remaining() == old(self).remaining()
                },
            },
    {
        if self.items.len() == 0 {
            None
        } else {
            let item = self.items.remove(0);
            proof {
                assert(self.items@ =~= old(self).remaining().drop_first());
            }
            Some(item)
        }
    }
}

/// Index uniqueness: storing two records under distinct indices, neither
/// already present, leaves both retrievable at their own index and grows the
/// store by exactly two records.
pub proof fn lemma_distinct_indices_coexist(
    m: Map<Seq<u8>, Seq<u8>>,
    k1: Seq<u8>,
    k2: Seq<u8>,
    b1: Seq<u8>,
    b2: Seq<u8>,
)
    requires
        m.dom().finite(),
        k1 != k2,
        !m.dom().contains(k1),
        !m.dom().contains(k2),
    ensures
        m.insert(k1, b1).insert(k2, b2)[k1] == b1,
        m.insert(k1, b1).insert(k2, b2)[k2] == b2,
        m.insert(k1, b1).insert(k2, b2).len() == m.len() + 2,
{
    broadcast use vstd::set::axiom_set_insert_len;
    broadcast use vstd::map::axiom_map_insert_domain;

    assert(m.insert(k1, b1).dom() == m.dom().insert(k1));
    assert(m.insert(k1, b1).insert(k2, b2).dom() == m.dom().insert(k1).insert(k2));
}

/// Upsert semantics: storing twice at one index leaves exactly one record
/// there, holding the second value.
pub proof fn lemma_upsert_last_writer_wins(
    m: Map<Seq<u8>, Seq<u8>>,
    k: Seq<u8>,
    b1: Seq<u8>,
    b2: Seq<u8>,
)
    ensures
        m.insert(k, b1).insert(k, b2) == m.insert(k, b2),
        m.insert(k, b1).insert(k, b2)[k] == b2,
{
    assert(m.insert(k, b1).insert(k, b2) =~= m.insert(k, b2));
}

} // verus!
