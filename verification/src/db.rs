//! The mappings between short identifiers, checksums and original
//! filenames, and the operations on them.
//!
//! Every operation takes the store: by `&` to read, by `&mut` to write. A
//! store cannot be cloned, so the contracts speak of what the one store
//! holds. After a failure of the store (`StoreUnavailable`) nothing is
//! promised of the two mappings that the failed transaction was writing.

use vstd::prelude::*;
use vstd::slice::slice_to_vec;
use vstd::utf8::*;
use std::sync::Arc;
use sled::transaction::{
    ConflictableTransactionError, TransactionError, TransactionalTree,
    UnabortableTransactionError,
};
use crate::error::UploadError;
use crate::laws::law_listing_is_unique;
use crate::random::random_short_id;
use crate::store::{
    found_bytes, is_listing, lookup, pair_views, tx_entries, tx_get, tx_insert, Store, Table,
};
use crate::text::{
    ascii_chars, decode_text, is_ascii_bytes, is_short_id, lemma_ascii_text, well_formed_id,
};

verus! {

/// How many candidate identifiers are tried before an allocation gives up.
pub const MAX_ATTEMPTS: usize = 5;

/// The identifier → checksum mapping of `db`.
pub open spec fn id_to_sha(db: Store) -> Table {
    db.entries("id_to_sha"@)
}

/// The checksum → identifier mapping of `db`.
pub open spec fn sha_to_id(db: Store) -> Table {
    db.entries("sha_to_id"@)
}

/// The checksum → original filename mapping of `db`.
pub open spec fn sha_to_orig(db: Store) -> Table {
    db.entries("sha_to_orig"@)
}

/// The original filename → checksum mapping of `db`.
pub open spec fn orig_to_sha(db: Store) -> Table {
    db.entries("orig_to_sha"@)
}

/// A candidate can be handed out while it has the form of a short
/// identifier and no checksum is bound to it yet.
pub open spec fn usable(backward: Table, candidate: Seq<char>) -> bool {
    &&& is_short_id(encode_utf8(candidate))
    &&& !backward.contains_key(encode_utf8(candidate))
}

/// How many of the candidates an allocation looks at.
pub open spec fn attempts(candidates: Seq<Seq<char>>) -> int {
    if candidates.len() < MAX_ATTEMPTS {
        candidates.len() as int
    } else {
        MAX_ATTEMPTS as int
    }
}

/// `i` is the place of the first candidate that can be handed out, among
/// those that an allocation looks at.
pub open spec fn is_first_usable(backward: Table, candidates: Seq<Seq<char>>, i: int) -> bool {
    &&& 0 <= i < attempts(candidates)
    &&& usable(backward, candidates[i])
    &&& forall|j: int| 0 <= j < i ==> !usable(backward, #[trigger] candidates[j])
}

/// The place of the first candidate that can be handed out, if there is one.
pub open spec fn first_usable(backward: Table, candidates: Seq<Seq<char>>) -> Option<int> {
    if exists|i: int| is_first_usable(backward, candidates, i) {
        Some(choose|i: int| is_first_usable(backward, candidates, i))
    } else {
        None
    }
}

/// What allocating an identifier for `sha` returns, given the two
/// identifier mappings: the identifier that the checksum already has, or
/// else the first candidate that can be handed out.
pub open spec fn allocation(forward: Table, backward: Table, sha: Seq<u8>, candidates: Seq<Seq<char>>) -> Result<
    Seq<char>,
    UploadError,
> {
    if forward.contains_key(sha) {
        if valid_utf8(forward[sha]) {
            Ok(decode_utf8(forward[sha]))
        } else {
            Err(UploadError::EncodingError)
        }
    } else {
        match first_usable(backward, candidates) {
            Some(i) => Ok(candidates[i]),
            None => Err(UploadError::AllocationExhausted),
        }
    }
}

/// The two mappings with `key` and `partner` bound to each other.
pub open spec fn linked(forward: Table, backward: Table, key: Seq<u8>, partner: Seq<u8>) -> (Table, Table) {
    (forward.insert(key, partner), backward.insert(partner, key))
}

/// The two identifier mappings after allocating an identifier for `sha`:
/// a new binding in both where a candidate was handed out, no change
/// otherwise.
pub open spec fn allocated(forward: Table, backward: Table, sha: Seq<u8>, candidates: Seq<Seq<char>>) -> (
    Table,
    Table,
) {
    if forward.contains_key(sha) {
        (forward, backward)
    } else {
        match first_usable(backward, candidates) {
            Some(i) => linked(forward, backward, sha, encode_utf8(candidates[i])),
            None => (forward, backward),
        }
    }
}

/// The texts of a list of strings.
pub open spec fn texts(strings: Seq<String>) -> Seq<Seq<char>> {
    Seq::new(strings.len(), |i: int| strings[i]@)
}

/// Allocating an identifier for `sha` with `candidates` takes the two
/// identifier mappings from `forward`, `backward` to `forward_after`,
/// `backward_after` and returns `r`.
pub open spec fn allocates(
    forward: Table,
    backward: Table,
    sha: Seq<u8>,
    candidates: Seq<Seq<char>>,
    r: Result<Seq<char>, UploadError>,
    forward_after: Table,
    backward_after: Table,
) -> bool {
    &&& r == allocation(forward, backward, sha, candidates)
    &&& (forward_after, backward_after) == allocated(forward, backward, sha, candidates)
}

/// As many candidates as an allocation looks at, each with the form of a
/// short identifier.
pub open spec fn are_drawn(candidates: Seq<Seq<char>>) -> bool {
    &&& candidates.len() == MAX_ATTEMPTS
    &&& forall|i: int| 0 <= i < candidates.len() ==> is_short_id(encode_utf8(#[trigger] candidates[i]))
}

/// A change to a pair of mappings that point at each other, made in one
/// transaction.
pub(crate) enum Change<'a> {
    /// Give `checksum` an identifier unless it has one: the first of
    /// `candidates` that can be handed out.
    Allocate { checksum: &'a str, candidates: &'a Vec<String> },
    /// Give `checksum` an identifier unless it has one: the first that can
    /// be handed out of up to five candidates, drawn at random one by one.
    Draw { checksum: &'a str },
    /// Bind `checksum` and `name` to each other, whatever was bound before.
    Link { checksum: &'a str, name: &'a str },
}

impl<'a> Change<'a> {
    /// The change takes the two mappings from `forward`, `backward` to
    /// `forward_after`, `backward_after` and returns `r`.
    pub(crate) open spec fn admits(
        &self,
        forward: Table,
        backward: Table,
        r: Result<Seq<char>, UploadError>,
        forward_after: Table,
        backward_after: Table,
    ) -> bool {
        match *self {
            Change::Allocate { checksum, candidates } => allocates(
                forward,
                backward,
                encode_utf8(checksum@),
                texts(candidates@),
                r,
                forward_after,
                backward_after,
            ),
            Change::Draw { checksum } => exists|candidates: Seq<Seq<char>>|
                are_drawn(candidates) && #[trigger] allocates(
                    forward,
                    backward,
                    encode_utf8(checksum@),
                    candidates,
                    r,
                    forward_after,
                    backward_after,
                ),
            Change::Link { checksum, name } => {
                &&& r == Ok::<Seq<char>, UploadError>(name@)
                &&& (forward_after, backward_after) == linked(
                    forward,
                    backward,
                    encode_utf8(checksum@),
                    encode_utf8(name@),
                )
            },
        }
    }
}

/// The failure of a transaction's body that stands for a failed read or
/// write: a conflict stays a conflict, a failure of the engine stays that
/// failure.
pub fn raised(failure: UnabortableTransactionError) -> (r: ConflictableTransactionError<UploadError>)
    ensures
        match failure {
            UnabortableTransactionError::Conflict => r is Conflict,
            UnabortableTransactionError::Storage(cause) => r matches ConflictableTransactionError::Storage(c) && c
                == cause,
        },
{
    match failure {
        UnabortableTransactionError::Conflict => ConflictableTransactionError::Conflict,
        UnabortableTransactionError::Storage(cause) => ConflictableTransactionError::Storage(cause),
    }
}

/// Reads the answer to the lookup of a checksum's identifier inside a
/// transaction: no identifier, the identifier as text, or the abort of the
/// transaction because what is stored is not valid text. A failed lookup
/// fails the body as it failed.
pub fn existing_identifier(answer: Result<Option<Vec<u8>>, UnabortableTransactionError>) -> (r: Result<
    Option<String>,
    ConflictableTransactionError<UploadError>,
>)
    ensures
        match answer {
            Ok(None) => r matches Ok(None),
            Ok(Some(bytes)) => if valid_utf8(bytes@) {
                r matches Ok(Some(id)) && id@ == decode_utf8(bytes@)
            } else {
                r matches Err(ConflictableTransactionError::Abort(reason)) && reason == UploadError::EncodingError
            },
            Err(UnabortableTransactionError::Conflict) => r matches Err(ConflictableTransactionError::Conflict),
            Err(UnabortableTransactionError::Storage(cause)) => r matches Err(
                ConflictableTransactionError::Storage(c),
            ) && c == cause,
        },
{
    match answer {
        Ok(None) => Ok(None),
        Ok(Some(bytes)) => match decode_text(bytes.as_slice()) {
            Some(id) => Ok(Some(id.to_owned())),
            None => Err(ConflictableTransactionError::Abort(UploadError::EncodingError)),
        },
        Err(failure) => Err(raised(failure)),
    }
}

/// Reads the answer to the lookup of a candidate inside a transaction: the
/// candidate is free where nothing was found. A failed lookup fails the
/// body as it failed.
pub fn candidate_is_free(answer: Result<Option<Vec<u8>>, UnabortableTransactionError>) -> (r: Result<
    bool,
    ConflictableTransactionError<UploadError>,
>)
    ensures
        match answer {
            Ok(found) => r matches Ok(free) && free == (found is None),
            Err(UnabortableTransactionError::Conflict) => r matches Err(ConflictableTransactionError::Conflict),
            Err(UnabortableTransactionError::Storage(cause)) => r matches Err(
                ConflictableTransactionError::Storage(c),
            ) && c == cause,
        },
{
    match answer {
        Ok(found) => Ok(found.is_none()),
        Err(failure) => Err(raised(failure)),
    }
}

/// Binds `key` and `partner` to each other inside a transaction.
fn link_in(forward: &mut TransactionalTree, backward: &mut TransactionalTree, key: &[u8], partner: &[u8]) -> (r: Result<
    (),
    ConflictableTransactionError<UploadError>,
>)
    ensures
        r is Ok ==> (tx_entries(*final(forward)), tx_entries(*final(backward))) == linked(
            tx_entries(*old(forward)),
            tx_entries(*old(backward)),
            key@,
            partner@,
        ),
        r matches Err(failure) ==> !(failure is Abort),
{
    match tx_insert(forward, key, partner) {
        Ok(()) => {},
        Err(failure) => {
            return Err(raised(failure));
        },
    }
    match tx_insert(backward, partner, key) {
        Ok(()) => Ok(()),
        Err(failure) => Err(raised(failure)),
    }
}

/// Allocates an identifier for `checksum` out of `candidates` inside a
/// transaction.
fn allocate_in(
    by_sha: &mut TransactionalTree,
    by_id: &mut TransactionalTree,
    checksum: &str,
    candidates: &Vec<String>,
) -> (r: Result<String, ConflictableTransactionError<UploadError>>)
    ensures
        r matches Ok(id) ==> allocates(
            tx_entries(*old(by_sha)),
            tx_entries(*old(by_id)),
            encode_utf8(checksum@),
            texts(candidates@),
            Ok(id@),
            tx_entries(*final(by_sha)),
            tx_entries(*final(by_id)),
        ),
        r matches Err(ConflictableTransactionError::Abort(reason)) ==> allocates(
            tx_entries(*old(by_sha)),
            tx_entries(*old(by_id)),
            encode_utf8(checksum@),
            texts(candidates@),
            Err(reason),
            tx_entries(*final(by_sha)),
            tx_entries(*final(by_id)),
        ),
{
    let sha = checksum.as_bytes();
    let existing = match existing_identifier(tx_get(by_sha, sha)) {
        Ok(existing) => existing,
        Err(failure) => {
            return Err(failure);
        },
    };
    if let Some(id) = existing {
        return Ok(id);
    }
    let ghost taken = tx_entries(*by_id);
    let mut i: usize = 0;
    while i < candidates.len() && i < MAX_ATTEMPTS
        invariant
            0 <= i <= attempts(texts(candidates@)),
            tx_entries(*by_sha) == tx_entries(*old(by_sha)),
            tx_entries(*by_id) == tx_entries(*old(by_id)),
            taken == tx_entries(*old(by_id)),
            sha@ == encode_utf8(checksum@),
            !tx_entries(*by_sha).contains_key(sha@),
            forall|j: int| 0 <= j < i ==> !usable(taken, #[trigger] texts(candidates@)[j]),
        decreases candidates.len() - i,
    {
        let id = candidates[i].as_str().as_bytes();
        assert(id@ == encode_utf8(texts(candidates@)[i as int]));
        if well_formed_id(id) {
            match candidate_is_free(tx_get(by_id, id)) {
                Err(failure) => {
                    return Err(failure);
                },
                Ok(true) => {
                    proof {
                        lemma_first_usable(taken, texts(candidates@), i as int);
                    }
                    return match link_in(by_sha, by_id, sha, id) {
                        Ok(()) => Ok(candidates[i].clone()),
                        Err(failure) => Err(failure),
                    };
                },
                Ok(false) => {},
            }
        }
        i = i + 1;
    }
    proof {
        lemma_none_usable(taken, texts(candidates@));
    }
    Err(ConflictableTransactionError::Abort(UploadError::AllocationExhausted))
}

/// Five candidates to fill a list with: `last`, over and over.
pub open spec fn filled_up(tried: Seq<Seq<char>>, last: Seq<char>) -> Seq<Seq<char>> {
    Seq::new(MAX_ATTEMPTS as nat, |i: int| if i < tried.len() { tried[i] } else { last })
}

/// Five times the candidate `aaa`.
pub open spec fn plain_candidates() -> Seq<Seq<char>> {
    filled_up(Seq::empty(), ascii_chars(seq![97u8, 97u8, 97u8]))
}

/// There are candidates with the form of short identifiers.
pub proof fn lemma_candidates_exist()
    ensures
        are_drawn(plain_candidates()),
{
    let letters = seq![97u8, 97u8, 97u8];
    assert(is_ascii_bytes(letters));
    lemma_ascii_text(letters);
    assert(is_short_id(letters));
}

/// Allocates an identifier for `checksum` inside a transaction, drawing a
/// random candidate for each attempt.
fn draw_in(by_sha: &mut TransactionalTree, by_id: &mut TransactionalTree, checksum: &str) -> (r: Result<
    String,
    ConflictableTransactionError<UploadError>,
>)
    ensures
        r matches Ok(id) ==> exists|candidates: Seq<Seq<char>>|
            are_drawn(candidates) && #[trigger] allocates(
                tx_entries(*old(by_sha)),
                tx_entries(*old(by_id)),
                encode_utf8(checksum@),
                candidates,
                Ok(id@),
                tx_entries(*final(by_sha)),
                tx_entries(*final(by_id)),
            ),
        r matches Err(ConflictableTransactionError::Abort(reason)) ==> exists|candidates: Seq<Seq<char>>|
            are_drawn(candidates) && #[trigger] allocates(
                tx_entries(*old(by_sha)),
                tx_entries(*old(by_id)),
                encode_utf8(checksum@),
                candidates,
                Err(reason),
                tx_entries(*final(by_sha)),
                tx_entries(*final(by_id)),
            ),
{
    let sha = checksum.as_bytes();
    let ghost by_sha_before = tx_entries(*by_sha);
    let ghost taken = tx_entries(*by_id);
    let existing = match existing_identifier(tx_get(by_sha, sha)) {
        Ok(existing) => existing,
        Err(failure) => {
            proof {
                lemma_candidates_exist();
                if failure is Abort {
                    assert(allocates(
                        by_sha_before,
                        taken,
                        sha@,
                        plain_candidates(),
                        Err(UploadError::EncodingError),
                        by_sha_before,
                        taken,
                    ));
                }
            }
            return Err(failure);
        },
    };
    if let Some(id) = existing {
        let ghost id_text = id@;
        let result: Result<String, ConflictableTransactionError<UploadError>> = Ok(id);
        proof {
            lemma_candidates_exist();
            assert(result->Ok_0@ == id_text);
            assert(allocates(
                by_sha_before,
                taken,
                sha@,
                plain_candidates(),
                Ok(result->Ok_0@),
                by_sha_before,
                taken,
            ));
        }
        return result;
    }
    let ghost mut tried: Seq<Seq<char>> = Seq::empty();
    let mut i: usize = 0;
    while i < MAX_ATTEMPTS
        invariant
            0 <= i <= MAX_ATTEMPTS,
            tried.len() == i,
            tx_entries(*by_sha) == by_sha_before,
            tx_entries(*by_id) == taken,
            by_sha_before == tx_entries(*old(by_sha)),
            taken == tx_entries(*old(by_id)),
            sha@ == encode_utf8(checksum@),
            !by_sha_before.contains_key(sha@),
            forall|j: int| 0 <= j < i ==> is_short_id(encode_utf8(#[trigger] tried[j])),
            forall|j: int| 0 <= j < i ==> !usable(taken, #[trigger] tried[j]),
        decreases MAX_ATTEMPTS - i,
    {
        let candidate = random_short_id();
        let id = candidate.as_str().as_bytes();
        let ghost before = tried;
        proof {
            tried = tried.push(candidate@);
        }
        match candidate_is_free(tx_get(by_id, id)) {
            Err(failure) => {
                return Err(failure);
            },
            Ok(true) => {
                match link_in(by_sha, by_id, sha, id) {
                    Ok(()) => {
                        let ghost id_text = candidate@;
                        let result: Result<String, ConflictableTransactionError<UploadError>> = Ok(candidate);
                        proof {
                            assert(result->Ok_0@ == id_text);
                            let drawn = filled_up(tried, id_text);
                            assert(are_drawn(drawn));
                            assert(is_first_usable(taken, drawn, i as int)) by {
                                assert forall|j: int| 0 <= j < i implies !usable(taken, #[trigger] drawn[j]) by {
                                    assert(drawn[j] == before[j]);
                                }
                            }
                            lemma_first_usable(taken, drawn, i as int);
                            assert(allocates(
                                by_sha_before,
                                taken,
                                sha@,
                                drawn,
                                Ok(result->Ok_0@),
                                tx_entries(*by_sha),
                                tx_entries(*by_id),
                            ));
                        }
                        return result;
                    },
                    Err(failure) => {
                        return Err(failure);
                    },
                }
            },
            Ok(false) => {
                assert(!usable(taken, tried[i as int]));
                assert forall|j: int| 0 <= j < i + 1 implies !usable(taken, #[trigger] tried[j]) by {
                    if j < i {
                        assert(tried[j] == before[j]);
                    }
                }
                assert forall|j: int| 0 <= j < i + 1 implies is_short_id(encode_utf8(#[trigger] tried[j])) by {
                    if j < i {
                        assert(tried[j] == before[j]);
                    }
                }
            },
        }
        i = i + 1;
    }
    proof {
        assert(are_drawn(tried));
        lemma_none_usable(taken, tried);
        assert(allocates(
            by_sha_before,
            taken,
            sha@,
            tried,
            Err(UploadError::AllocationExhausted),
            by_sha_before,
            taken,
        ));
    }
    Err(ConflictableTransactionError::Abort(UploadError::AllocationExhausted))
}

/// The first candidate that can be handed out is found at one place only.
pub proof fn lemma_first_usable(backward: Table, candidates: Seq<Seq<char>>, i: int)
    requires
        is_first_usable(backward, candidates, i),
    ensures
        first_usable(backward, candidates) == Some(i),
{
    let k = choose|k: int| is_first_usable(backward, candidates, k);
    if k < i {
        assert(!usable(backward, candidates[k]));
    } else if i < k {
        assert(!usable(backward, candidates[i]));
    }
}

/// Where none of the candidates that are looked at can be handed out, there
/// is no first one.
pub proof fn lemma_none_usable(backward: Table, candidates: Seq<Seq<char>>)
    requires
        forall|j: int| 0 <= j < attempts(candidates) ==> !usable(backward, #[trigger] candidates[j]),
    ensures
        first_usable(backward, candidates) is None,
{
}

/// Makes `change` to the trees of a running transaction.
pub(crate) fn apply_in(forward: &mut TransactionalTree, backward: &mut TransactionalTree, change: &Change) -> (r: Result<
    String,
    ConflictableTransactionError<UploadError>,
>)
    ensures
        r matches Ok(bound) ==> change.admits(
            tx_entries(*old(forward)),
            tx_entries(*old(backward)),
            Ok(bound@),
            tx_entries(*final(forward)),
            tx_entries(*final(backward)),
        ),
        r matches Err(ConflictableTransactionError::Abort(reason)) ==> change.admits(
            tx_entries(*old(forward)),
            tx_entries(*old(backward)),
            Err(reason),
            tx_entries(*final(forward)),
            tx_entries(*final(backward)),
        ),
{
    match change {
        Change::Allocate { checksum, candidates } => allocate_in(forward, backward, checksum, candidates),
        Change::Draw { checksum } => draw_in(forward, backward, checksum),
        Change::Link { checksum, name } => {
            match link_in(forward, backward, checksum.as_bytes(), name.as_bytes()) {
                Ok(()) => Ok((*name).to_owned()),
                Err(failure) => Err(failure),
            }
        },
    }
}

/// The text of a result, or its error.
pub open spec fn text_of(r: Result<String, UploadError>) -> Result<Seq<char>, UploadError> {
    match r {
        Ok(s) => Ok(s@),
        Err(e) => Err(e),
    }
}

/// What a transaction came to, in the library's own terms: the bound text,
/// the reason for which its body gave up, or that the store failed.
pub fn settle(outcome: Result<String, TransactionError<UploadError>>) -> (r: Result<String, UploadError>)
    ensures
        match outcome {
            Ok(bound) => r == Ok::<String, UploadError>(bound),
            Err(TransactionError::Abort(reason)) => r == Err::<String, UploadError>(reason),
            Err(TransactionError::Storage(_)) => r == Err::<String, UploadError>(
                UploadError::StoreUnavailable,
            ),
        },
{
    match outcome {
        Ok(bound) => Ok(bound),
        Err(TransactionError::Abort(reason)) => Err(reason),
        Err(TransactionError::Storage(_)) => Err(UploadError::StoreUnavailable),
    }
}

/// The four mappings have four different names.
pub proof fn lemma_names_differ()
    ensures
        "id_to_sha"@ != "sha_to_id"@,
        "id_to_sha"@ != "sha_to_orig"@,
        "id_to_sha"@ != "orig_to_sha"@,
        "sha_to_id"@ != "sha_to_orig"@,
        "sha_to_id"@ != "orig_to_sha"@,
        "sha_to_orig"@ != "orig_to_sha"@,
{
    reveal_strlit("id_to_sha");
    reveal_strlit("sha_to_id");
    reveal_strlit("sha_to_orig");
    reveal_strlit("orig_to_sha");
    assert("id_to_sha"@.len() == 9 && "sha_to_id"@.len() == 9);
    assert("sha_to_orig"@.len() == 11 && "orig_to_sha"@.len() == 11);
    assert("id_to_sha"@[0] != "sha_to_id"@[0]);
    assert("sha_to_orig"@[0] != "orig_to_sha"@[0]);
}

/// An allocation for `sha` with `candidates` took the store from `before`
/// to `after` and returned `r`.
pub open spec fn allocation_made(
    before: Store,
    sha: Seq<u8>,
    candidates: Seq<Seq<char>>,
    r: Result<Seq<char>, UploadError>,
    after: Store,
) -> bool {
    allocates(sha_to_id(before), id_to_sha(before), sha, candidates, r, sha_to_id(after), id_to_sha(after))
}

/// Gives `sha256` a short identifier out of `candidates`, unless it has one.
///
/// In one transaction: the identifier that the checksum already has is
/// returned as it is; otherwise the first of the first five candidates that
/// has the form of a short identifier and is not taken is bound to the
/// checksum, both ways, and returned. With no such candidate the allocation
/// is exhausted and nothing is written.
///
/// Where the store fails, nothing is promised of the two identifier
/// mappings.
pub fn try_bind_shortid(db: &mut Store, sha256: &str, candidates: &Vec<String>) -> (r: Result<String, UploadError>)
    ensures
        r matches Err(UploadError::StoreUnavailable) || allocation_made(
            *old(db),
            encode_utf8(sha256@),
            texts(candidates@),
            text_of(r),
            *final(db),
        ),
        sha_to_orig(*final(db)) == sha_to_orig(*old(db)),
        orig_to_sha(*final(db)) == orig_to_sha(*old(db)),
{
    proof {
        lemma_names_differ();
    }
    let change = Change::Allocate { checksum: sha256, candidates };
    let ghost before = *db;
    let outcome = db.transact("sha_to_id", "id_to_sha", &change);
    proof {
        if outcome matches Err(TransactionError::Abort(_)) {
            lemma_failed_allocation_writes_nothing(
                sha_to_id(before),
                id_to_sha(before),
                encode_utf8(sha256@),
                texts(candidates@),
            );
        }
    }
    settle(outcome)
}

/// An allocation that returns no identifier writes nothing.
pub proof fn lemma_failed_allocation_writes_nothing(
    forward: Table,
    backward: Table,
    sha: Seq<u8>,
    candidates: Seq<Seq<char>>,
)
    requires
        allocation(forward, backward, sha, candidates) is Err,
    ensures
        allocated(forward, backward, sha, candidates) == (forward, backward),
{
}

/// The checksum `sha` was given the identifier `r`, or none, between the
/// identifier mappings `by_sha`, `by_id` and `by_sha_after`, `by_id_after`.
///
/// A checksum that has an identifier keeps it and nothing is written. One
/// that has none gets a well-formed identifier that was free, bound both
/// ways, or the allocation is exhausted and nothing is written.
pub open spec fn identifier_given(
    by_sha: Table,
    by_id: Table,
    sha: Seq<u8>,
    r: Result<Seq<char>, UploadError>,
    by_sha_after: Table,
    by_id_after: Table,
) -> bool {
    if by_sha.contains_key(sha) {
        &&& by_sha_after == by_sha
        &&& by_id_after == by_id
        &&& r == if valid_utf8(by_sha[sha]) {
            Ok::<Seq<char>, UploadError>(decode_utf8(by_sha[sha]))
        } else {
            Err::<Seq<char>, UploadError>(UploadError::EncodingError)
        }
    } else {
        match r {
            Ok(id) => {
                &&& is_short_id(encode_utf8(id))
                &&& !by_id.contains_key(encode_utf8(id))
                &&& (by_sha_after, by_id_after) == linked(by_sha, by_id, sha, encode_utf8(id))
            },
            Err(reason) => {
                &&& reason == UploadError::AllocationExhausted
                &&& by_sha_after == by_sha
                &&& by_id_after == by_id
            },
        }
    }
}

/// An allocation with drawn candidates gives the checksum an identifier as
/// [`identifier_given`] says.
pub proof fn lemma_drawn_identifier(forward: Table, backward: Table, sha: Seq<u8>, candidates: Seq<Seq<char>>)
    requires
        are_drawn(candidates),
    ensures
        identifier_given(
            forward,
            backward,
            sha,
            allocation(forward, backward, sha, candidates),
            allocated(forward, backward, sha, candidates).0,
            allocated(forward, backward, sha, candidates).1,
        ),
{
    if first_usable(backward, candidates) is Some {
        let i = first_usable(backward, candidates)->0;
        assert(is_first_usable(backward, candidates, i));
    }
}

/// Returns the short identifier of `sha256`, allocating a new random one if
/// it has none yet.
///
/// In one transaction: the identifier that the checksum already has is
/// returned as it is, and no candidate is drawn. Otherwise up to five
/// random candidates are drawn, one for each attempt, and the first that is
/// not taken is bound to the checksum, both ways, and returned. When all
/// five are taken the allocation is exhausted and nothing is written.
///
/// Where the store fails, nothing is promised of the two identifier
/// mappings.
pub fn try_get_new_shortid(db: &mut Store, sha256: &str) -> (r: Result<String, UploadError>)
    ensures
        r matches Err(UploadError::StoreUnavailable) || exists|candidates: Seq<Seq<char>>|
            are_drawn(candidates) && #[trigger] allocation_made(
                *old(db),
                encode_utf8(sha256@),
                candidates,
                text_of(r),
                *final(db),
            ),
        r matches Err(UploadError::StoreUnavailable) || identifier_given(
            sha_to_id(*old(db)),
            id_to_sha(*old(db)),
            encode_utf8(sha256@),
            text_of(r),
            sha_to_id(*final(db)),
            id_to_sha(*final(db)),
        ),
        sha_to_orig(*final(db)) == sha_to_orig(*old(db)),
        orig_to_sha(*final(db)) == orig_to_sha(*old(db)),
{
    proof {
        lemma_names_differ();
    }
    let change = Change::Draw { checksum: sha256 };
    let ghost before = *db;
    let ghost sha = encode_utf8(sha256@);
    let outcome = db.transact("sha_to_id", "id_to_sha", &change);
    let ghost seen = outcome;
    proof {
        let by_sha = sha_to_id(before);
        let by_id = id_to_sha(before);
        match seen {
            Ok(bound) => {
                let drawn = choose|drawn: Seq<Seq<char>>|
                    are_drawn(drawn) && #[trigger] allocates(
                        by_sha,
                        by_id,
                        sha,
                        drawn,
                        Ok(bound@),
                        sha_to_id(*db),
                        id_to_sha(*db),
                    );
                assert(allocation_made(before, sha, drawn, Ok(bound@), *db));
                lemma_drawn_identifier(by_sha, by_id, sha, drawn);
            },
            Err(TransactionError::Abort(reason)) => {
                let (f, b) = choose|f: Table, b: Table| #[trigger]
                    change.admits(by_sha, by_id, Err(reason), f, b);
                let drawn = choose|drawn: Seq<Seq<char>>|
                    are_drawn(drawn) && #[trigger] allocates(by_sha, by_id, sha, drawn, Err(reason), f, b);
                lemma_failed_allocation_writes_nothing(by_sha, by_id, sha, drawn);
                assert(allocation_made(before, sha, drawn, Err(reason), *db));
                lemma_drawn_identifier(by_sha, by_id, sha, drawn);
            },
            Err(TransactionError::Storage(_)) => {},
        }
    }
    settle(outcome)
}

/// Binds `sha256` and the original filename `orig` to each other, in one
/// transaction. Whatever either was bound to before is overwritten.
///
/// Where the store fails, nothing is promised of the two filename mappings.
pub fn try_add_sha_orig(db: &mut Store, sha256: &str, orig: &str) -> (r: Result<(), UploadError>)
    ensures
        r matches Err(reason) ==> reason == UploadError::StoreUnavailable,
        r is Ok ==> (sha_to_orig(*final(db)), orig_to_sha(*final(db))) == linked(
            sha_to_orig(*old(db)),
            orig_to_sha(*old(db)),
            encode_utf8(sha256@),
            encode_utf8(orig@),
        ),
        sha_to_id(*final(db)) == sha_to_id(*old(db)),
        id_to_sha(*final(db)) == id_to_sha(*old(db)),
{
    proof {
        lemma_names_differ();
    }
    let change = Change::Link { checksum: sha256, name: orig };
    match settle(db.transact("sha_to_orig", "orig_to_sha", &change)) {
        Ok(_) => Ok(()),
        Err(reason) => Err(reason),
    }
}

/// The text that a lookup found: unknown where there is no value, and also
/// where the value is not valid text.
pub open spec fn text_found(found: Option<Seq<u8>>) -> Result<Seq<char>, UploadError> {
    match found {
        Some(bytes) => if valid_utf8(bytes) {
            Ok(decode_utf8(bytes))
        } else {
            Err(UploadError::NotFound)
        },
        None => Err(UploadError::NotFound),
    }
}

/// Reads the answer of a lookup as text.
pub fn stored_text(answer: Result<Option<Vec<u8>>, sled::Error>) -> (r: Result<String, UploadError>)
    ensures
        match answer {
            Ok(found) => text_of(r) == text_found(found_bytes(found)),
            Err(_) => r == Err::<String, UploadError>(UploadError::StoreUnavailable),
        },
{
    match answer {
        Ok(Some(bytes)) => match decode_text(bytes.as_slice()) {
            Some(text) => Ok(text.to_owned()),
            None => Err(UploadError::NotFound),
        },
        Ok(None) => Err(UploadError::NotFound),
        Err(_) => Err(UploadError::StoreUnavailable),
    }
}

/// Returns the checksum that the original filename `filename` is bound to.
pub fn try_get_sha_for_orig(db: &Store, filename: &[u8]) -> (r: Result<String, UploadError>)
    ensures
        r matches Err(UploadError::StoreUnavailable) || text_of(r) == text_found(
            lookup(orig_to_sha(*db), filename@),
        ),
{
    stored_text(db.read("orig_to_sha", filename))
}

/// Returns the original filename that the checksum `sha256` is bound to.
pub fn try_get_orig_for_sha(db: &Store, sha256: &[u8]) -> (r: Result<String, UploadError>)
    ensures
        r matches Err(UploadError::StoreUnavailable) || text_of(r) == text_found(
            lookup(sha_to_orig(*db), sha256@),
        ),
{
    stored_text(db.read("sha_to_orig", sha256))
}

/// What resolving the short identifier `id` returns, given the two mappings
/// that it goes through: the checksum of the identifier and the original
/// filename of that checksum. Either being unknown, or not valid text, makes
/// the identifier unknown.
pub open spec fn resolution(by_id: Table, names: Table, id: Seq<u8>) -> Result<(Seq<char>, Seq<char>), UploadError> {
    match text_found(lookup(by_id, id)) {
        Ok(sha) => match text_found(lookup(names, by_id[id])) {
            Ok(name) => Ok((sha, name)),
            Err(_) => Err(UploadError::NotFound),
        },
        Err(_) => Err(UploadError::NotFound),
    }
}

/// The two texts of a result, or its error.
pub open spec fn texts_of(r: Result<(String, String), UploadError>) -> Result<(Seq<char>, Seq<char>), UploadError> {
    match r {
        Ok((a, b)) => Ok((a@, b@)),
        Err(e) => Err(e),
    }
}

/// Resolves a short identifier to its checksum and original filename.
pub fn try_get_sha_and_orig(db: &Store, short_id: &[u8]) -> (r: Result<(String, String), UploadError>)
    ensures
        r matches Err(UploadError::StoreUnavailable) || texts_of(r) == resolution(
            id_to_sha(*db),
            sha_to_orig(*db),
            short_id@,
        ),
{
    let sha256 = match stored_text(db.read("id_to_sha", short_id)) {
        Ok(text) => text,
        Err(reason) => {
            return Err(reason);
        },
    };
    proof {
        decode_utf8_encode_utf8(id_to_sha(*db)[short_id@]);
    }
    match stored_text(db.read("sha_to_orig", sha256.as_str().as_bytes())) {
        Ok(orig) => Ok((sha256, orig)),
        Err(reason) => Err(reason),
    }
}

/// One upload as the store knows it.
pub struct Upload {
    pub id: String,
    pub checksum: String,
    pub orig_name: Option<String>,
}

/// The texts of an [`Upload`].
pub ghost struct UploadText {
    pub id: Seq<char>,
    pub checksum: Seq<char>,
    pub orig_name: Option<Seq<char>>,
}

impl View for Upload {
    type V = UploadText;

    open spec fn view(&self) -> UploadText {
        UploadText {
            id: self.id@,
            checksum: self.checksum@,
            orig_name: match self.orig_name {
                Some(name) => Some(name@),
                None => None,
            },
        }
    }
}

/// The texts of a list of uploads.
pub open spec fn upload_texts(uploads: Seq<Upload>) -> Seq<UploadText> {
    Seq::new(uploads.len(), |i: int| uploads[i]@)
}

/// The texts of an upload, if there is one.
pub open spec fn upload_text_if_any(entry: Option<Upload>) -> Option<UploadText> {
    match entry {
        Some(upload) => Some(upload@),
        None => None,
    }
}

/// The byte strings of a list of keys.
pub open spec fn keys_of(keys: Seq<Vec<u8>>) -> Seq<Seq<u8>> {
    Seq::new(keys.len(), |i: int| keys[i]@)
}

/// What an entry of the identifier mapping is listed as, given what the
/// lookup of its checksum's filename found: nothing if the identifier, the
/// checksum or the filename is not valid text; without a name if none was
/// found.
pub open spec fn entry_found(id: Seq<u8>, sha: Seq<u8>, found: Option<Seq<u8>>) -> Option<UploadText> {
    if !valid_utf8(id) || !valid_utf8(sha) {
        None
    } else {
        match found {
            None => Some(UploadText { id: decode_utf8(id), checksum: decode_utf8(sha), orig_name: None }),
            Some(name) => if valid_utf8(name) {
                Some(
                    UploadText {
                        id: decode_utf8(id),
                        checksum: decode_utf8(sha),
                        orig_name: Some(decode_utf8(name)),
                    },
                )
            } else {
                None
            },
        }
    }
}

/// What an entry of the identifier mapping is listed as, given the filename
/// mapping.
pub open spec fn entry_of(id: Seq<u8>, sha: Seq<u8>, names: Table) -> Option<UploadText> {
    entry_found(id, sha, lookup(names, sha))
}

/// The uploads that a list of entries of the identifier mapping is listed
/// as, in the order of the entries.
pub open spec fn listed(pairs: Seq<(Seq<u8>, Seq<u8>)>, names: Table) -> Seq<UploadText>
    decreases pairs.len(),
{
    if pairs.len() == 0 {
        Seq::empty()
    } else {
        let before = listed(pairs.drop_last(), names);
        match entry_of(pairs.last().0, pairs.last().1, names) {
            Some(entry) => before.push(entry),
            None => before,
        }
    }
}

/// The identifiers of the entries that are not listed, in the order of the
/// entries.
pub open spec fn skipped(pairs: Seq<(Seq<u8>, Seq<u8>)>, names: Table) -> Seq<Seq<u8>>
    decreases pairs.len(),
{
    if pairs.len() == 0 {
        Seq::empty()
    } else {
        let before = skipped(pairs.drop_last(), names);
        match entry_of(pairs.last().0, pairs.last().1, names) {
            Some(_) => before,
            None => before.push(pairs.last().0),
        }
    }
}

/// The entries of a mapping in the order of their keys.
pub open spec fn listing(entries: Table) -> Seq<(Seq<u8>, Seq<u8>)> {
    choose|pairs: Seq<(Seq<u8>, Seq<u8>)>| is_listing(pairs, entries)
}

/// Reads one entry of the identifier mapping, with the answer to the lookup
/// of its checksum's filename, as an upload. An entry that is not valid
/// text gives no upload; a failed lookup makes the store unavailable.
pub fn listed_entry(id: &[u8], sha: &[u8], answer: Result<Option<Vec<u8>>, sled::Error>) -> (r: Result<
    Option<Upload>,
    UploadError,
>)
    ensures
        match answer {
            Ok(found) => r matches Ok(entry) && upload_text_if_any(entry) == entry_found(
                id@,
                sha@,
                found_bytes(found),
            ),
            Err(_) => r matches Err(reason) && reason == UploadError::StoreUnavailable,
        },
{
    let found = match answer {
        Ok(found) => found,
        Err(_) => {
            return Err(UploadError::StoreUnavailable);
        },
    };
    let (id, checksum) = match (decode_text(id), decode_text(sha)) {
        (Some(id), Some(checksum)) => (id, checksum),
        _ => {
            return Ok(None);
        },
    };
    match found {
        None => Ok(Some(Upload { id: id.to_owned(), checksum: checksum.to_owned(), orig_name: None })),
        Some(name_bytes) => match decode_text(name_bytes.as_slice()) {
            Some(name) => Ok(
                Some(Upload { id: id.to_owned(), checksum: checksum.to_owned(), orig_name: Some(name.to_owned()) }),
            ),
            None => Ok(None),
        },
    }
}

/// What a scan of the store found: the uploads, and the identifiers of the
/// entries that were left out because they are not valid text.
pub struct Scan {
    pub uploads: Vec<Upload>,
    pub skipped: Vec<Vec<u8>>,
}

/// Scans the identifier mapping in the order of the identifiers and reads
/// each entry with the original filename of its checksum, if it has one.
/// Entries that are not valid text are left out of the uploads and their
/// identifiers reported.
pub fn scan_ids_and_names(db: &Store) -> (r: Result<Scan, UploadError>)
    ensures
        r matches Err(reason) ==> reason == UploadError::StoreUnavailable,
        r matches Ok(scan) ==> {
            &&& is_listing(listing(id_to_sha(*db)), id_to_sha(*db))
            &&& upload_texts(scan.uploads@) == listed(listing(id_to_sha(*db)), sha_to_orig(*db))
            &&& keys_of(scan.skipped@) == skipped(listing(id_to_sha(*db)), sha_to_orig(*db))
        },
{
    let pairs = match db.scan("id_to_sha") {
        Ok(pairs) => pairs,
        Err(_) => {
            return Err(UploadError::StoreUnavailable);
        },
    };
    let ghost all = pair_views(pairs@);
    let ghost names = sha_to_orig(*db);
    proof {
        law_listing_is_unique(all, listing(id_to_sha(*db)), id_to_sha(*db));
    }
    let mut uploads: Vec<Upload> = Vec::new();
    let mut left_out: Vec<Vec<u8>> = Vec::new();
    let mut i: usize = 0;
    while i < pairs.len()
        invariant
            0 <= i <= pairs.len(),
            all == pair_views(pairs@),
            names == sha_to_orig(*db),
            upload_texts(uploads@) == listed(all.take(i as int), names),
            keys_of(left_out@) == skipped(all.take(i as int), names),
        decreases pairs.len() - i,
    {
        proof {
            assert(all.take(i + 1).drop_last() == all.take(i as int));
            assert(all.take(i + 1).last() == all[i as int]);
        }
        let ghost listed_so_far = upload_texts(uploads@);
        let ghost skipped_so_far = keys_of(left_out@);
        let id = pairs[i].0.as_slice();
        let sha = pairs[i].1.as_slice();
        match listed_entry(id, sha, db.read("sha_to_orig", sha)) {
            Err(reason) => {
                return Err(reason);
            },
            Ok(Some(upload)) => {
                uploads.push(upload);
                assert(upload_texts(uploads@) == listed_so_far.push(uploads@.last()@));
            },
            Ok(None) => {
                left_out.push(slice_to_vec(id));
                assert(keys_of(left_out@) == skipped_so_far.push(id@));
            },
        }
        i = i + 1;
    }
    proof {
        assert(all.take(i as int) == all);
    }
    Ok(Scan { uploads, skipped: left_out })
}

/// Lists every upload: the entries of the identifier mapping in the order of
/// the identifiers, each with the original filename of its checksum if it
/// has one. Entries that are not valid text are left out.
pub fn get_all_ids_and_names(db: &Store) -> (r: Result<Vec<Upload>, UploadError>)
    ensures
        r matches Err(reason) ==> reason == UploadError::StoreUnavailable,
        r matches Ok(uploads) ==> {
            &&& is_listing(listing(id_to_sha(*db)), id_to_sha(*db))
            &&& upload_texts(uploads@) == listed(listing(id_to_sha(*db)), sha_to_orig(*db))
        },
{
    match scan_ids_and_names(db) {
        Ok(scan) => Ok(scan.uploads),
        Err(reason) => Err(reason),
    }
}

/// Registers an upload whose content is in place: gives `sha256` its short
/// identifier, then binds it and the original filename `orig` to each
/// other. Returns the identifier. Where the identifier cannot be given, no
/// name is bound.
///
/// Where the store fails, either no filename was bound, or the identifier
/// had been given before the failure; nothing more is promised then.
pub fn register_upload(db: &mut Store, sha256: &str, orig: &str) -> (r: Result<String, UploadError>)
    ensures
        r matches Err(UploadError::StoreUnavailable) || {
            &&& identifier_given(
                sha_to_id(*old(db)),
                id_to_sha(*old(db)),
                encode_utf8(sha256@),
                text_of(r),
                sha_to_id(*final(db)),
                id_to_sha(*final(db)),
            )
            &&& r is Ok ==> (sha_to_orig(*final(db)), orig_to_sha(*final(db))) == linked(
                sha_to_orig(*old(db)),
                orig_to_sha(*old(db)),
                encode_utf8(sha256@),
                encode_utf8(orig@),
            )
            &&& r is Err ==> sha_to_orig(*final(db)) == sha_to_orig(*old(db)) && orig_to_sha(*final(db))
                == orig_to_sha(*old(db))
        },
        (sha_to_orig(*final(db)) == sha_to_orig(*old(db)) && orig_to_sha(*final(db)) == orig_to_sha(*old(db)))
            || exists|id: Seq<char>| #[trigger]
            identifier_given(
                sha_to_id(*old(db)),
                id_to_sha(*old(db)),
                encode_utf8(sha256@),
                Ok(id),
                sha_to_id(*final(db)),
                id_to_sha(*final(db)),
            ),
{
    let id = match try_get_new_shortid(db, sha256) {
        Ok(id) => id,
        Err(reason) => {
            return Err(reason);
        },
    };
    match try_add_sha_orig(db, sha256, orig) {
        Ok(()) => Ok(id),
        Err(reason) => Err(reason),
    }
}

/// Opens the store at `db_path`, creating it if there is none. Whether that
/// succeeds is decided by what is at the path; the store that comes back is
/// the one to hand to every other operation.
pub fn open(db_path: Arc<str>) -> (r: Result<Store, UploadError>)
    ensures
        r matches Err(reason) ==> reason == UploadError::StoreUnavailable,
        r matches Ok(store) ==> store.location() == db_path@,
{
    Store::open(&db_path)
}

} // verus!
