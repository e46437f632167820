//! What holds of the mappings across several operations.

use vstd::prelude::*;
use vstd::utf8::*;
use crate::db::{
    allocated, allocation, attempts, first_usable, is_first_usable, lemma_first_usable, linked,
    text_found, usable, MAX_ATTEMPTS,
};
use crate::error::UploadError;
use crate::pipeline::{step, ActionView, EventView, Phase, SessionView, StepView};
use crate::store::{bytes_before, is_listing, lookup, Table};

verus! {

/// The two identifier mappings agree: the identifier of every checksum
/// leads back to that checksum.
pub open spec fn consistent(forward: Table, backward: Table) -> bool {
    forall|sha: Seq<u8>| #[trigger]
        forward.contains_key(sha) ==> backward.contains_key(forward[sha]) && backward[forward[sha]] == sha
}

/// Two empty identifier mappings agree.
pub proof fn law_new_store_is_consistent()
    ensures
        consistent(Map::empty(), Map::empty()),
{
}

/// The checksum `sha` has the identifier `id`.
pub open spec fn has_id(forward: Table, sha: Seq<u8>, id: Seq<char>) -> bool {
    &&& forward.contains_key(sha)
    &&& valid_utf8(forward[sha])
    &&& decode_utf8(forward[sha]) == id
}

/// An allocation that returns an identifier leaves the checksum bound to it.
pub proof fn law_allocation_binds(forward: Table, backward: Table, sha: Seq<u8>, candidates: Seq<Seq<char>>)
    requires
        allocation(forward, backward, sha, candidates) is Ok,
    ensures
        has_id(allocated(forward, backward, sha, candidates).0, sha, allocation(forward, backward, sha, candidates)->Ok_0),
{
    if !forward.contains_key(sha) {
        let i = first_usable(backward, candidates)->0;
        encode_utf8_valid_utf8(candidates[i]);
        encode_utf8_decode_utf8(candidates[i]);
    }
}

/// Allocating again for a checksum returns the identifier that it was
/// given the first time, whatever candidates are offered, and writes
/// nothing.
pub proof fn law_allocation_is_idempotent(
    forward: Table,
    backward: Table,
    sha: Seq<u8>,
    first: Seq<Seq<char>>,
    second: Seq<Seq<char>>,
)
    requires
        allocation(forward, backward, sha, first) is Ok,
    ensures
        ({
            let (f, b) = allocated(forward, backward, sha, first);
            &&& allocation(f, b, sha, second) == allocation(forward, backward, sha, first)
            &&& allocated(f, b, sha, second) == (f, b)
        }),
{
    law_allocation_binds(forward, backward, sha, first);
}

/// An allocation changes no binding that was there: every checksum keeps
/// the identifier that it has.
pub proof fn law_allocation_keeps_bindings(
    forward: Table,
    backward: Table,
    sha: Seq<u8>,
    candidates: Seq<Seq<char>>,
    other: Seq<u8>,
)
    requires
        forward.contains_key(other),
    ensures
        lookup(allocated(forward, backward, sha, candidates).0, other) == lookup(forward, other),
{
}

/// An allocation keeps the two identifier mappings in agreement.
pub proof fn law_allocation_keeps_consistency(
    forward: Table,
    backward: Table,
    sha: Seq<u8>,
    candidates: Seq<Seq<char>>,
)
    requires
        consistent(forward, backward),
    ensures
        consistent(allocated(forward, backward, sha, candidates).0, allocated(forward, backward, sha, candidates).1),
{
    let (f, b) = allocated(forward, backward, sha, candidates);
    if !forward.contains_key(sha) && first_usable(backward, candidates) is Some {
        let i = first_usable(backward, candidates)->0;
        let id = encode_utf8(candidates[i]);
        assert(is_first_usable(backward, candidates, i));
        assert forall|key: Seq<u8>| #[trigger] f.contains_key(key) implies b.contains_key(f[key]) && b[f[key]]
            == key by {
            if key != sha {
                assert(forward.contains_key(key));
                assert(backward.contains_key(forward[key]));
            }
        }
    }
}

/// Each of the two identifier mappings is the inverse of the other: every
/// checksum with an identifier is the checksum of that identifier, and every
/// identifier with a checksum is the identifier of that checksum.
pub open spec fn one_to_one(forward: Table, backward: Table) -> bool {
    &&& consistent(forward, backward)
    &&& forall|id: Seq<u8>| #[trigger]
        backward.contains_key(id) ==> forward.contains_key(backward[id]) && forward[backward[id]] == id
}

/// Two empty identifier mappings are inverse to each other.
pub proof fn law_new_store_is_one_to_one()
    ensures
        one_to_one(Map::empty(), Map::empty()),
{
}

/// An allocation keeps the two identifier mappings inverse to each other,
/// whatever it returns.
pub proof fn law_allocation_keeps_one_to_one(
    forward: Table,
    backward: Table,
    sha: Seq<u8>,
    candidates: Seq<Seq<char>>,
)
    requires
        one_to_one(forward, backward),
    ensures
        one_to_one(allocated(forward, backward, sha, candidates).0, allocated(forward, backward, sha, candidates).1),
{
    let (f, b) = allocated(forward, backward, sha, candidates);
    law_allocation_keeps_consistency(forward, backward, sha, candidates);
    if !forward.contains_key(sha) && first_usable(backward, candidates) is Some {
        let i = first_usable(backward, candidates)->0;
        let fresh = encode_utf8(candidates[i]);
        assert(is_first_usable(backward, candidates, i));
        assert forall|id: Seq<u8>| #[trigger] b.contains_key(id) implies f.contains_key(b[id]) && f[b[id]]
            == id by {
            if id != fresh {
                assert(backward.contains_key(id));
                assert(forward.contains_key(backward[id]));
            }
        }
    }
}

/// Where the two identifier mappings agree, two different checksums never
/// have the same identifier.
pub proof fn law_ids_are_unique(forward: Table, backward: Table, one: Seq<u8>, other: Seq<u8>, id: Seq<char>)
    requires
        consistent(forward, backward),
        has_id(forward, one, id),
        has_id(forward, other, id),
    ensures
        one == other,
{
    decode_utf8_encode_utf8(forward[one]);
    decode_utf8_encode_utf8(forward[other]);
    assert(forward.contains_key(one) && forward.contains_key(other));
}

/// Two allocations for different checksums, one after the other, return
/// different identifiers.
pub proof fn law_distinct_checksums_get_distinct_ids(
    forward: Table,
    backward: Table,
    one: Seq<u8>,
    one_candidates: Seq<Seq<char>>,
    other: Seq<u8>,
    other_candidates: Seq<Seq<char>>,
)
    requires
        consistent(forward, backward),
        one != other,
        allocation(forward, backward, one, one_candidates) is Ok,
        ({
            let (f, b) = allocated(forward, backward, one, one_candidates);
            allocation(f, b, other, other_candidates) is Ok
        }),
    ensures
        ({
            let (f, b) = allocated(forward, backward, one, one_candidates);
            allocation(f, b, other, other_candidates) != allocation(forward, backward, one, one_candidates)
        }),
{
    let (f, b) = allocated(forward, backward, one, one_candidates);
    let (f2, b2) = allocated(f, b, other, other_candidates);
    let id = allocation(forward, backward, one, one_candidates)->Ok_0;
    law_allocation_binds(forward, backward, one, one_candidates);
    law_allocation_keeps_consistency(forward, backward, one, one_candidates);
    law_allocation_binds(f, b, other, other_candidates);
    law_allocation_keeps_consistency(f, b, other, other_candidates);
    law_allocation_keeps_bindings(f, b, other, other_candidates, one);
    if allocation(f, b, other, other_candidates) == Ok::<Seq<char>, UploadError>(id) {
        law_ids_are_unique(f2, b2, one, other, id);
    }
}

/// A run of allocations, each for a checksum with its candidates.
pub type Requests = Seq<(Seq<u8>, Seq<Seq<char>>)>;

/// The two identifier mappings after the first `done` of a run of
/// allocations.
pub open spec fn after_requests(forward: Table, backward: Table, requests: Requests, done: int) -> (Table, Table)
    decreases done,
{
    if done <= 0 {
        (forward, backward)
    } else {
        let (f, b) = after_requests(forward, backward, requests, done - 1);
        allocated(f, b, requests[done - 1].0, requests[done - 1].1)
    }
}

/// What the allocation at the place `k` of a run returns.
pub open spec fn answer_at(forward: Table, backward: Table, requests: Requests, k: int) -> Result<
    Seq<char>,
    UploadError,
> {
    let (f, b) = after_requests(forward, backward, requests, k);
    allocation(f, b, requests[k].0, requests[k].1)
}

proof fn lemma_run_keeps(forward: Table, backward: Table, requests: Requests, k: int, done: int)
    requires
        consistent(forward, backward),
        0 <= k < done <= requests.len(),
        answer_at(forward, backward, requests, k) is Ok,
    ensures
        consistent(
            after_requests(forward, backward, requests, done).0,
            after_requests(forward, backward, requests, done).1,
        ),
        consistent(
            after_requests(forward, backward, requests, k).0,
            after_requests(forward, backward, requests, k).1,
        ),
        has_id(
            after_requests(forward, backward, requests, done).0,
            requests[k].0,
            answer_at(forward, backward, requests, k)->Ok_0,
        ),
    decreases done,
{
    lemma_run_consistent(forward, backward, requests, k);
    let (f, b) = after_requests(forward, backward, requests, done - 1);
    lemma_run_consistent(forward, backward, requests, done - 1);
    law_allocation_keeps_consistency(f, b, requests[done - 1].0, requests[done - 1].1);
    if done - 1 == k {
        law_allocation_binds(f, b, requests[k].0, requests[k].1);
    } else {
        lemma_run_keeps(forward, backward, requests, k, done - 1);
        law_allocation_keeps_bindings(f, b, requests[done - 1].0, requests[done - 1].1, requests[k].0);
    }
}

proof fn lemma_run_consistent(forward: Table, backward: Table, requests: Requests, done: int)
    requires
        consistent(forward, backward),
        0 <= done <= requests.len(),
    ensures
        consistent(
            after_requests(forward, backward, requests, done).0,
            after_requests(forward, backward, requests, done).1,
        ),
    decreases done,
{
    if done > 0 {
        lemma_run_consistent(forward, backward, requests, done - 1);
        let (f, b) = after_requests(forward, backward, requests, done - 1);
        law_allocation_keeps_consistency(f, b, requests[done - 1].0, requests[done - 1].1);
    }
}

/// In a run of allocations that starts from mappings in agreement, any two
/// allocations for different checksums return different identifiers.
pub proof fn law_identifiers_are_pairwise_distinct(
    forward: Table,
    backward: Table,
    requests: Requests,
    i: int,
    j: int,
)
    requires
        consistent(forward, backward),
        0 <= i < requests.len(),
        0 <= j < requests.len(),
        requests[i].0 != requests[j].0,
        answer_at(forward, backward, requests, i) is Ok,
        answer_at(forward, backward, requests, j) is Ok,
    ensures
        answer_at(forward, backward, requests, i) != answer_at(forward, backward, requests, j),
{
    let n = requests.len() as int;
    let (f, b) = after_requests(forward, backward, requests, n);
    lemma_run_keeps(forward, backward, requests, i, n);
    lemma_run_keeps(forward, backward, requests, j, n);
    if answer_at(forward, backward, requests, i) == answer_at(forward, backward, requests, j) {
        law_ids_are_unique(f, b, requests[i].0, requests[j].0, answer_at(forward, backward, requests, i)->Ok_0);
    }
}

/// An allocation never looks past the first five candidates.
pub proof fn law_candidates_past_the_limit_are_ignored(
    forward: Table,
    backward: Table,
    sha: Seq<u8>,
    candidates: Seq<Seq<char>>,
)
    requires
        candidates.len() >= MAX_ATTEMPTS,
    ensures
        allocation(forward, backward, sha, candidates) == allocation(
            forward,
            backward,
            sha,
            candidates.take(MAX_ATTEMPTS as int),
        ),
        allocated(forward, backward, sha, candidates) == allocated(
            forward,
            backward,
            sha,
            candidates.take(MAX_ATTEMPTS as int),
        ),
{
    let tried = candidates.take(MAX_ATTEMPTS as int);
    assert(attempts(tried) == attempts(candidates));
    if first_usable(backward, candidates) is Some {
        let i = first_usable(backward, candidates)->0;
        assert(is_first_usable(backward, candidates, i));
        assert(is_first_usable(backward, tried, i)) by {
            assert(tried[i] == candidates[i]);
            assert forall|j: int| 0 <= j < i implies !usable(backward, #[trigger] tried[j]) by {
                assert(tried[j] == candidates[j]);
            }
        }
        lemma_first_usable(backward, tried, i);
    } else if first_usable(backward, tried) is Some {
        let i = first_usable(backward, tried)->0;
        assert(is_first_usable(backward, tried, i));
        assert(is_first_usable(backward, candidates, i)) by {
            assert(tried[i] == candidates[i]);
            assert forall|j: int| 0 <= j < i implies !usable(backward, #[trigger] candidates[j]) by {
                assert(tried[j] == candidates[j]);
            }
        }
        lemma_first_usable(backward, candidates, i);
    }
}

/// Where each of the first five candidates is taken or ill-formed, the
/// allocation for a checksum without an identifier is exhausted and writes
/// nothing.
pub proof fn law_exhaustion(forward: Table, backward: Table, sha: Seq<u8>, candidates: Seq<Seq<char>>)
    requires
        !forward.contains_key(sha),
        forall|j: int| 0 <= j < attempts(candidates) ==> !usable(backward, #[trigger] candidates[j]),
    ensures
        (allocation(forward, backward, sha, candidates) == Err::<Seq<char>, UploadError>(
            UploadError::AllocationExhausted,
        )),
        allocated(forward, backward, sha, candidates) == (forward, backward),
{
}

/// Binding a name to a second checksum makes the name lead to the second
/// checksum. Every other checksum keeps the name that it had, the first
/// among them, and every other name keeps its checksum.
pub proof fn law_last_writer_wins(
    forward: Table,
    backward: Table,
    first: Seq<u8>,
    second: Seq<u8>,
    name: Seq<u8>,
)
    ensures
        ({
            let (f1, b1) = linked(forward, backward, first, name);
            let (f2, b2) = linked(f1, b1, second, name);
            &&& lookup(b1, name) == Some(first)
            &&& lookup(b2, name) == Some(second)
            &&& lookup(f2, second) == Some(name)
            &&& forall|sha: Seq<u8>| sha != second ==> lookup(f2, sha) == lookup(f1, sha)
            &&& first != second ==> lookup(f2, first) == Some(name)
            &&& forall|other: Seq<u8>| other != name ==> lookup(b2, other) == lookup(b1, other)
        }),
{
}

/// A binding reads back as the text that was bound.
pub proof fn law_bound_text_reads_back(forward: Table, backward: Table, sha: Seq<char>, name: Seq<char>)
    ensures
        ({
            let (f, b) = linked(forward, backward, encode_utf8(sha), encode_utf8(name));
            &&& text_found(lookup(f, encode_utf8(sha))) == Ok::<Seq<char>, UploadError>(name)
            &&& text_found(lookup(b, encode_utf8(name))) == Ok::<Seq<char>, UploadError>(sha)
        }),
{
    encode_utf8_valid_utf8(sha);
    encode_utf8_decode_utf8(sha);
    encode_utf8_valid_utf8(name);
    encode_utf8_decode_utf8(name);
}

/// An upload without bytes is rejected: when the stream ends empty, the
/// staged file is removed, and whatever is reported next, the upload ends
/// with `EmptyUpload`. Nothing is read back, moved or registered.
pub proof fn law_empty_upload_is_rejected(s: SessionView, next: EventView)
    requires
        s.phase == Phase::Staging,
    ensures
        step(s, EventView::StreamEnded { received: 0 }) == s.fail(UploadError::EmptyUpload),
        s.fail(UploadError::EmptyUpload) matches StepView::Next { session, action } && action
            == (ActionView::Discard { staged: s.staged() }) && step(session, next) == (StepView::Done {
            outcome: Err(UploadError::EmptyUpload),
        }),
{
}

/// A registration is asked for only when the content is in place: after
/// the staged file was moved there, or after it was found there and the
/// staged file was removed. What is registered is the checksum that was
/// published, under the filename of the upload.
pub proof fn law_registration_follows_publication(s: SessionView, event: EventView)
    requires
        s.well_formed(),
        step(s, event) matches StepView::Next { action: ActionView::Register { .. }, .. },
    ensures
        (s.phase == Phase::Moving && event == EventView::Moved) || (s.phase == Phase::Dropping
            && event is Discarded),
        step(s, event) matches StepView::Next { session, action: ActionView::Register { checksum, filename } }
            && session.phase == Phase::Registering && Some(checksum) == s.checksum && filename == s.filename,
{
}

/// Content that is published already is kept: the staged file is moved
/// only where the published files do not hold the checksum, and removed
/// where they do.
pub proof fn law_published_content_is_kept(s: SessionView, present: bool)
    requires
        s.phase == Phase::Publishing,
    ensures
        step(s, EventView::Probed { present }) matches StepView::Next { session, action } && session.checksum
            == s.checksum && if present {
            session.phase == Phase::Dropping && action == (ActionView::Discard { staged: s.staged() })
        } else {
            session.phase == Phase::Moving && action == (ActionView::Move {
                from: s.staged(),
                to: "uploads/"@ + s.checksum->0,
            })
        },
{
}

/// The session that a run of events leaves, if the upload is not over.
pub open spec fn session_after(start: SessionView, events: Seq<EventView>) -> Option<SessionView>
    decreases events.len(),
{
    if events.len() == 0 {
        Some(start)
    } else {
        match session_after(start, events.drop_last()) {
            Some(s) => match step(s, events.last()) {
                StepView::Next { session, .. } => Some(session),
                StepView::Done { .. } => None,
            },
            None => None,
        }
    }
}

/// The event tells that the content is in place.
pub open spec fn confirms_content(event: EventView) -> bool {
    event == EventView::Moved || event == (EventView::Probed { present: true })
}

/// An upload that has come to its registration was told before that its
/// content is in place.
pub proof fn law_publish_before_register(start: SessionView, events: Seq<EventView>)
    requires
        start.phase == Phase::Staging,
        session_after(start, events) matches Some(s) && s.phase == Phase::Registering,
    ensures
        exists|i: int| 0 <= i < events.len() && confirms_content(#[trigger] events[i]),
{
    lemma_confirmed_on_the_way(start, events);
}

proof fn lemma_confirmed_on_the_way(start: SessionView, events: Seq<EventView>)
    requires
        start.phase == Phase::Staging,
    ensures
        session_after(start, events) matches Some(s) && (s.phase == Phase::Registering || s.phase
            == Phase::Dropping) ==> exists|i: int| 0 <= i < events.len() && confirms_content(#[trigger] events[i]),
    decreases events.len(),
{
    if events.len() > 0 {
        let before = events.drop_last();
        lemma_confirmed_on_the_way(start, before);
        if session_after(start, events) matches Some(s) && (s.phase == Phase::Registering || s.phase
            == Phase::Dropping) {
            let mid = session_after(start, before)->0;
            if confirms_content(events.last()) {
                assert(confirms_content(events[events.len() - 1]));
            } else {
                assert(mid.phase == Phase::Dropping);
                let i = choose|i: int| 0 <= i < before.len() && confirms_content(#[trigger] before[i]);
                assert(events[i] == before[i]);
            }
        }
    }
}

/// No byte string comes before itself.
pub proof fn lemma_order_is_irreflexive(a: Seq<u8>)
    ensures
        !bytes_before(a, a),
    decreases a.len(),
{
    if a.len() > 0 {
        lemma_order_is_irreflexive(a.drop_first());
    }
}

/// Of two byte strings at most one comes before the other.
pub proof fn lemma_order_is_asymmetric(a: Seq<u8>, b: Seq<u8>)
    requires
        bytes_before(a, b),
    ensures
        !bytes_before(b, a),
    decreases a.len(),
{
    if a.len() > 0 && b.len() > 0 && a[0] == b[0] {
        lemma_order_is_asymmetric(a.drop_first(), b.drop_first());
    }
}

/// A mapping has one listing only: its entries in the order of their keys.
pub proof fn law_listing_is_unique(one: Seq<(Seq<u8>, Seq<u8>)>, other: Seq<(Seq<u8>, Seq<u8>)>, entries: Table)
    requires
        is_listing(one, entries),
        is_listing(other, entries),
    ensures
        one == other,
    decreases one.len(),
{
    if one.len() == 0 {
        if other.len() > 0 {
            assert(entries.contains_key(other[0].0));
        }
        assert(one =~= other);
    } else {
        let key = one[0].0;
        assert(entries.contains_key(key));
        let j = choose|j: int| 0 <= j < other.len() && (#[trigger] other[j]).0 == key;
        assert(entries.contains_key(other[0].0));
        let i = choose|i: int| 0 <= i < one.len() && (#[trigger] one[i]).0 == other[0].0;
        if j > 0 {
            assert(bytes_before(other[0].0, other[j].0));
            if i > 0 {
                assert(bytes_before(one[0].0, one[i].0));
                lemma_order_is_asymmetric(one[0].0, one[i].0);
            } else {
                lemma_order_is_irreflexive(key);
            }
        }
        assert(other[0].0 == key);
        assert(one[0] == other[0]);
        let rest = entries.remove(key);
        assert(is_listing(one.drop_first(), rest)) by {
            lemma_rest_is_listed(one, entries);
        }
        assert(is_listing(other.drop_first(), rest)) by {
            lemma_rest_is_listed(other, entries);
        }
        law_listing_is_unique(one.drop_first(), other.drop_first(), rest);
        assert(one =~= seq![one[0]] + one.drop_first());
        assert(other =~= seq![other[0]] + other.drop_first());
    }
}

proof fn lemma_rest_is_listed(pairs: Seq<(Seq<u8>, Seq<u8>)>, entries: Table)
    requires
        is_listing(pairs, entries),
        pairs.len() > 0,
    ensures
        is_listing(pairs.drop_first(), entries.remove(pairs[0].0)),
{
    let key = pairs[0].0;
    let rest = pairs.drop_first();
    let fewer = entries.remove(key);
    assert forall|i: int| 0 <= i < rest.len() implies lookup(fewer, (#[trigger] rest[i]).0) == Some(rest[i].1) by {
        assert(rest[i] == pairs[i + 1]);
        assert(bytes_before(pairs[0].0, pairs[i + 1].0));
        lemma_order_is_irreflexive(key);
    }
    assert forall|k: Seq<u8>| #[trigger] fewer.contains_key(k) implies exists|i: int|
        0 <= i < rest.len() && (#[trigger] rest[i]).0 == k by {
        assert(entries.contains_key(k));
        let i = choose|i: int| 0 <= i < pairs.len() && (#[trigger] pairs[i]).0 == k;
        assert(rest[i - 1] == pairs[i]);
    }
    assert forall|i: int, j: int| 0 <= i < j < rest.len() implies bytes_before(
        (#[trigger] rest[i]).0,
        (#[trigger] rest[j]).0,
    ) by {
        assert(rest[i] == pairs[i + 1]);
        assert(rest[j] == pairs[j + 1]);
    }
}

} // verus!
