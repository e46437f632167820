//! The mapping store: a sled database as this library sees it. It holds
//! named trees of byte strings, read one key at a time or scanned, and
//! written one key at a time or in transactions over two trees.
//!
//! A [`Store`] keeps the handle to the database to itself and cannot be
//! cloned, so whoever holds it by `&mut` is the only one writing. The
//! contracts of the calls into sled are stated without proof, and they hold
//! for such a handle: one through which alone the store is written while it
//! is in use.

use vstd::prelude::*;
use sled::transaction::{
    ConflictableTransactionError, TransactionError, TransactionalTree, Transactional,
    UnabortableTransactionError,
};
use crate::db::{apply_in, Change};
use crate::error::UploadError;

verus! {

/// One mapping of the store: byte keys to byte values.
pub type Table = Map<Seq<u8>, Seq<u8>>;

/// `sled::Db`, a handle to an open database.
#[verifier::external_type_specification]
#[verifier::external_body]
pub struct ExDb(sled::Db);

/// `sled::Error`, a failure of the storage engine.
#[verifier::external_type_specification]
#[verifier::external_body]
pub struct ExSledError(sled::Error);

/// `sled::transaction::TransactionalTree`, one tree as a running transaction
/// sees it.
#[verifier::external_type_specification]
#[verifier::external_body]
pub struct ExTransactionalTree(TransactionalTree);

/// `sled::transaction::UnabortableTransactionError`, with which a read or a
/// write inside a transaction fails.
#[verifier::external_type_specification]
pub struct ExUnabortableTransactionError(UnabortableTransactionError);

/// `sled::transaction::ConflictableTransactionError`, with which the body of
/// a transaction fails.
#[verifier::external_type_specification]
#[verifier::reject_recursive_types(T)]
pub struct ExConflictableTransactionError<T>(ConflictableTransactionError<T>);

/// `sled::transaction::TransactionError`, with which a whole transaction
/// fails.
#[verifier::external_type_specification]
#[verifier::reject_recursive_types(T)]
pub struct ExTransactionError<T>(TransactionError<T>);

/// What the tree called `tree` holds in `db`.
pub uninterp spec fn tree_entries(db: sled::Db, tree: Seq<char>) -> Map<Seq<u8>, Seq<u8>>;

/// The path that the handle `db` was made with.
pub uninterp spec fn store_location(db: sled::Db) -> Seq<char>;

/// What a running transaction sees in one of its trees: the tree as it was
/// when the transaction began, with the transaction's own writes on top.
pub uninterp spec fn tx_entries(tree: TransactionalTree) -> Map<Seq<u8>, Seq<u8>>;

/// The value under `key`, if there is one.
pub open spec fn lookup(entries: Table, key: Seq<u8>) -> Option<Seq<u8>> {
    if entries.contains_key(key) {
        Some(entries[key])
    } else {
        None
    }
}

/// The bytes that were found, if any were.
pub open spec fn found_bytes(found: Option<Vec<u8>>) -> Option<Seq<u8>> {
    match found {
        Some(v) => Some(v@),
        None => None,
    }
}

/// `a` comes before `b` in the order of the trees, which compares byte by
/// byte and puts a proper prefix first.
pub open spec fn bytes_before(a: Seq<u8>, b: Seq<u8>) -> bool
    decreases a.len(),
{
    if b.len() == 0 {
        false
    } else if a.len() == 0 {
        true
    } else if a[0] != b[0] {
        a[0] < b[0]
    } else {
        bytes_before(a.drop_first(), b.drop_first())
    }
}

/// The keys and values of a list of entries.
pub open spec fn pair_views(pairs: Seq<(Vec<u8>, Vec<u8>)>) -> Seq<(Seq<u8>, Seq<u8>)> {
    Seq::new(pairs.len(), |i: int| (pairs[i].0@, pairs[i].1@))
}

/// `pairs` are the entries of `entries`, each once, in the order of their keys.
pub open spec fn is_listing(pairs: Seq<(Seq<u8>, Seq<u8>)>, entries: Table) -> bool {
    &&& forall|i: int| 0 <= i < pairs.len() ==> lookup(entries, (#[trigger] pairs[i]).0) == Some(pairs[i].1)
    &&& forall|key: Seq<u8>| #[trigger]
        entries.contains_key(key) ==> exists|i: int| 0 <= i < pairs.len() && (#[trigger] pairs[i]).0 == key
    &&& forall|i: int, j: int|
        0 <= i < j < pairs.len() ==> bytes_before((#[trigger] pairs[i]).0, (#[trigger] pairs[j]).0)
}

/// Opens the database at `path`.
///
/// Calls `sled::open`, which creates the database where there is none. The
/// handle that comes back is made with the path as it was given.
#[verifier::external_body]
pub(crate) fn db_open(path: &str) -> (r: Result<sled::Db, sled::Error>)
    ensures
        r matches Ok(db) ==> store_location(db) == path@,
{
    sled::open(path)
}

/// Opens a database of its own in a temporary place.
///
/// Calls `Config::open` on a configuration made with `Config::new` and
/// `temporary(true)`: sled picks the place and removes it when the handle is
/// dropped.
#[verifier::external_body]
pub(crate) fn db_open_temporary() -> Result<sled::Db, sled::Error> {
    sled::Config::new().temporary(true).open()
}

/// Writes `value` under `key` in a tree of the database.
///
/// Calls `Db::open_tree` and `Tree::insert`: unless the engine fails, the
/// tree holds the new value under the key from then on, and everything else
/// as before. Whatever comes back, no other tree is touched.
#[verifier::external_body]
pub(crate) fn db_put(db: &mut sled::Db, tree: &str, key: &[u8], value: &[u8]) -> (r: Result<(), sled::Error>)
    ensures
        r is Ok ==> tree_entries(*final(db), tree@) == tree_entries(*old(db), tree@).insert(key@, value@),
        forall|other: Seq<char>|
            other != tree@ ==> #[trigger] tree_entries(*final(db), other) == tree_entries(*old(db), other),
        store_location(*final(db)) == store_location(*old(db)),
{
    db.open_tree(tree)?.insert(key, value)?;
    Ok(())
}

/// Looks `key` up in a tree of the database.
///
/// Calls `Db::open_tree` and `Tree::get`: unless the engine fails, the
/// answer is the value that the tree holds under the key, or none.
#[verifier::external_body]
pub(crate) fn db_get(db: &sled::Db, tree: &str, key: &[u8]) -> (r: Result<Option<Vec<u8>>, sled::Error>)
    ensures
        r matches Ok(found) ==> found_bytes(found) == lookup(tree_entries(*db, tree@), key@),
{
    let found = db.open_tree(tree)?.get(key)?;
    Ok(found.map(|value| value.to_vec()))
}

/// Reads a whole tree of the database.
///
/// Calls `Db::open_tree` and `Tree::iter`, and stops at the first entry that
/// the engine cannot read: otherwise every entry comes out once, in the order
/// of the keys.
#[verifier::external_body]
pub(crate) fn db_scan(db: &sled::Db, tree: &str) -> (r: Result<Vec<(Vec<u8>, Vec<u8>)>, sled::Error>)
    ensures
        r matches Ok(pairs) ==> is_listing(pair_views(pairs@), tree_entries(*db, tree@)),
{
    db.open_tree(tree)?.iter().map(|entry| entry.map(|(key, value)| (key.to_vec(), value.to_vec()))).collect()
}

/// Looks `key` up inside a transaction.
///
/// Calls `TransactionalTree::get`: unless the engine fails, the answer is
/// what the transaction sees under the key.
#[verifier::external_body]
pub(crate) fn tx_get(tree: &TransactionalTree, key: &[u8]) -> (r: Result<
    Option<Vec<u8>>,
    UnabortableTransactionError,
>)
    ensures
        r matches Ok(found) ==> found_bytes(found) == lookup(tx_entries(*tree), key@),
{
    let found = tree.get(key)?;
    Ok(found.map(|value| value.to_vec()))
}

/// Writes `value` under `key` inside a transaction.
///
/// Calls `TransactionalTree::insert`: unless the engine fails, the
/// transaction sees the new value under the key from then on, and everything
/// else as before.
#[verifier::external_body]
pub(crate) fn tx_insert(tree: &mut TransactionalTree, key: &[u8], value: &[u8]) -> (r: Result<
    (),
    UnabortableTransactionError,
>)
    ensures
        r is Ok ==> tx_entries(*final(tree)) == tx_entries(*old(tree)).insert(key@, value@),
{
    tree.insert(key, value)?;
    Ok(())
}

/// Makes `change` to the trees `forward` and `backward` in one transaction.
///
/// Calls `Db::open_tree` twice and `Transactional::transaction` on the pair,
/// with `apply_in` as the body. sled runs the body on the two trees as they
/// are, and again if it reports a conflict. When the body succeeds, its
/// writes are committed together and its result is handed back; when it
/// aborts, nothing is written and its reason is handed back. After a failure
/// of the engine nothing is known of the two trees. Whatever comes back, no
/// other tree is touched.
///
/// `change.admits(..)` is what `apply_in` proves of one run of the body: how
/// the run's result and the two trees after it go with the two trees before
/// it. The clauses claim it of the run whose result came back, on the trees
/// as they were when the transaction began.
#[verifier::external_body]
pub(crate) fn db_transact(db: &mut sled::Db, forward: &str, backward: &str, change: &Change) -> (r: Result<
    String,
    TransactionError<UploadError>,
>)
    requires
        forward@ != backward@,
    ensures
        r matches Ok(bound) ==> change.admits(
            tree_entries(*old(db), forward@),
            tree_entries(*old(db), backward@),
            Ok(bound@),
            tree_entries(*final(db), forward@),
            tree_entries(*final(db), backward@),
        ),
        r matches Err(TransactionError::Abort(reason)) ==> exists|f: Table, b: Table| #[trigger]
            change.admits(tree_entries(*old(db), forward@), tree_entries(*old(db), backward@), Err(reason), f, b),
        r matches Err(TransactionError::Abort(_)) ==> tree_entries(*final(db), forward@) == tree_entries(
            *old(db),
            forward@,
        ) && tree_entries(*final(db), backward@) == tree_entries(*old(db), backward@),
        forall|other: Seq<char>|
            other != forward@ && other != backward@ ==> #[trigger] tree_entries(*final(db), other)
                == tree_entries(*old(db), other),
        store_location(*final(db)) == store_location(*old(db)),
{
    let first = db.open_tree(forward)?;
    let second = db.open_tree(backward)?;
    (&first, &second).transaction(|(a, b)| apply_in(&mut a.clone(), &mut b.clone(), change))
}

/// The mapping store. It is opened once and handed by reference to every
/// operation: by `&` to read, by `&mut` to write.
pub struct Store {
    db: sled::Db,
}

/// What reading a key came to, in the library's own terms: what was found,
/// or that the store is unavailable.
pub fn fetched(answer: Result<Option<Vec<u8>>, sled::Error>) -> (r: Result<Option<Vec<u8>>, UploadError>)
    ensures
        match answer {
            Ok(found) => r == Ok::<Option<Vec<u8>>, UploadError>(found),
            Err(_) => r == Err::<Option<Vec<u8>>, UploadError>(UploadError::StoreUnavailable),
        },
{
    match answer {
        Ok(found) => Ok(found),
        Err(_) => Err(UploadError::StoreUnavailable),
    }
}

/// What writing a key came to, in the library's own terms: done, or that the
/// store is unavailable.
pub fn written(answer: Result<(), sled::Error>) -> (r: Result<(), UploadError>)
    ensures
        match answer {
            Ok(()) => r == Ok::<(), UploadError>(()),
            Err(_) => r == Err::<(), UploadError>(UploadError::StoreUnavailable),
        },
{
    match answer {
        Ok(()) => Ok(()),
        Err(_) => Err(UploadError::StoreUnavailable),
    }
}

impl Store {
    /// What the tree called `tree` holds.
    pub closed spec fn entries(&self, tree: Seq<char>) -> Table {
        tree_entries(self.db, tree)
    }

    /// The path that the store was opened at.
    pub closed spec fn location(&self) -> Seq<char> {
        store_location(self.db)
    }

    /// The store keeps the handle `db`.
    pub closed spec fn keeps(&self, db: sled::Db) -> bool {
        self.db == db
    }

    /// What opening the store came to, in the library's own terms: the
    /// store that keeps the handle that the engine gave, or that the store
    /// is unavailable. The store takes the handle over: no clone of it may
    /// be kept to write with.
    pub fn opened(answer: Result<sled::Db, sled::Error>) -> (r: Result<Store, UploadError>)
        ensures
            match answer {
                Ok(db) => r matches Ok(store) && store.keeps(db),
                Err(_) => r matches Err(reason) && reason == UploadError::StoreUnavailable,
            },
    {
        match answer {
            Ok(db) => Ok(Store { db }),
            Err(_) => Err(UploadError::StoreUnavailable),
        }
    }

    /// Opens the store at `path`, creating it if there is none. Whether
    /// that succeeds is decided by what is at the path.
    pub fn open(path: &str) -> (r: Result<Store, UploadError>)
        ensures
            r matches Err(reason) ==> reason == UploadError::StoreUnavailable,
            r matches Ok(store) ==> store.location() == path@,
    {
        Store::opened(db_open(path))
    }

    /// Opens a store of its own in a temporary place, which is removed when
    /// the store is dropped.
    pub fn temporary() -> (r: Result<Store, UploadError>)
        ensures
            r matches Err(reason) ==> reason == UploadError::StoreUnavailable,
    {
        Store::opened(db_open_temporary())
    }

    /// Looks `key` up in the tree called `tree`.
    pub fn get(&self, tree: &str, key: &[u8]) -> (r: Result<Option<Vec<u8>>, UploadError>)
        ensures
            r matches Err(reason) ==> reason == UploadError::StoreUnavailable,
            r matches Ok(found) ==> found_bytes(found) == lookup(self.entries(tree@), key@),
    {
        fetched(self.read(tree, key))
    }

    /// Writes `value` under `key` in the tree called `tree`. Where the store
    /// fails, nothing is promised of that tree; no other tree is touched.
    pub fn put(&mut self, tree: &str, key: &[u8], value: &[u8]) -> (r: Result<(), UploadError>)
        ensures
            r matches Err(reason) ==> reason == UploadError::StoreUnavailable,
            r is Ok ==> final(self).entries(tree@) == old(self).entries(tree@).insert(key@, value@),
            forall|other: Seq<char>|
                other != tree@ ==> #[trigger] final(self).entries(other) == old(self).entries(other),
            final(self).location() == old(self).location(),
    {
        written(db_put(&mut self.db, tree, key, value))
    }

    /// Looks `key` up in the tree called `tree`, and hands the engine's
    /// answer on.
    pub(crate) fn read(&self, tree: &str, key: &[u8]) -> (r: Result<Option<Vec<u8>>, sled::Error>)
        ensures
            r matches Ok(found) ==> found_bytes(found) == lookup(self.entries(tree@), key@),
    {
        db_get(&self.db, tree, key)
    }

    /// Reads the whole tree called `tree`, in the order of its keys.
    pub(crate) fn scan(&self, tree: &str) -> (r: Result<Vec<(Vec<u8>, Vec<u8>)>, sled::Error>)
        ensures
            r matches Ok(pairs) ==> is_listing(pair_views(pairs@), self.entries(tree@)),
    {
        db_scan(&self.db, tree)
    }

    /// Makes `change` to the trees `forward` and `backward` in one
    /// transaction.
    pub(crate) fn transact(&mut self, forward: &str, backward: &str, change: &Change) -> (r: Result<
        String,
        TransactionError<UploadError>,
    >)
        requires
            forward@ != backward@,
        ensures
            r matches Ok(bound) ==> change.admits(
                old(self).entries(forward@),
                old(self).entries(backward@),
                Ok(bound@),
                final(self).entries(forward@),
                final(self).entries(backward@),
            ),
            r matches Err(TransactionError::Abort(reason)) ==> exists|f: Table, b: Table| #[trigger]
                change.admits(old(self).entries(forward@), old(self).entries(backward@), Err(reason), f, b),
            r matches Err(TransactionError::Abort(_)) ==> final(self).entries(forward@) == old(self).entries(
                forward@,
            ) && final(self).entries(backward@) == old(self).entries(backward@),
            forall|other: Seq<char>|
                other != forward@ && other != backward@ ==> #[trigger] final(self).entries(other) == old(
                    self,
                ).entries(other),
            final(self).location() == old(self).location(),
    {
        let ghost before = *self;
        let r = db_transact(&mut self.db, forward, backward, change);
        let ghost seen = r;
        proof {
            match seen {
                Err(TransactionError::Abort(reason)) => {
                    let (f, b) = choose|f: Table, b: Table| #[trigger]
                        change.admits(
                            tree_entries(before.db, forward@),
                            tree_entries(before.db, backward@),
                            Err(reason),
                            f,
                            b,
                        );
                    assert(change.admits(
                        before.entries(forward@),
                        before.entries(backward@),
                        Err(reason),
                        f,
                        b,
                    ));
                },
                _ => {},
            }
        }
        r
    }
}

} // verus!
