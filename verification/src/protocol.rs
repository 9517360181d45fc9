//! The cross-node guarantees of the federation protocol, proved over the
//! state-machine model.  Each lemma composes the two halves of the
//! operations as they run on the two parties' records: the acting node
//! commits its half first, the counterpart's node applies the matching
//! half when the push arrives.

use vstd::prelude::*;
use crate::identity::UsernameView;
use crate::messages::FriendRequestView;
use crate::model::{fr_ids, lemma_lookup_by_push, lemma_map_values_push, lemma_remove_by_contains,
    lemma_remove_by_fresh, lemma_remove_by_push, lookup_fr, remove_fr, remove_id, UserDataView};

verus! {

/// On a record where `id` is fresh, removing `id` right after recording a
/// request under it restores the request list and the touched ledgers
/// exactly.  The two workhorse facts behind the round-trip laws.
proof fn lemma_send_then_remove(a: UserDataView, q: FriendRequestView)
    requires
        a.wf(),
        a.send_friend_request_allowed(q),
    ensures
        remove_fr(a.friend_requests.push(q), q.uuid) == a.friend_requests,
        remove_id(a.sent_friend_requests.push(q.uuid), q.uuid)
            == a.sent_friend_requests,
        remove_id(a.rec_friend_requests.push(q.uuid), q.uuid)
            == a.rec_friend_requests,
        lookup_pushed(a, q),
        !a.sent_friend_requests.contains(q.uuid),
        !a.rec_friend_requests.contains(q.uuid),
{
    let id = q.uuid;
    assert forall|i: int|
        0 <= i < a.friend_requests.len() implies (#[trigger] a.friend_requests[i]).uuid
        != id by {
        assert(fr_ids(a.friend_requests)[i] == a.friend_requests[i].uuid);
    }
    lemma_remove_by_push(a.friend_requests, |r: FriendRequestView| r.uuid, id, q);
    lemma_remove_by_fresh(a.friend_requests, |r: FriendRequestView| r.uuid, id);
    assert(!a.sent_friend_requests.contains(id));
    assert(!a.rec_friend_requests.contains(id));
    assert forall|i: int|
        0 <= i < a.sent_friend_requests.len() implies #[trigger] a.sent_friend_requests[i]
        != id by {
        if a.sent_friend_requests[i] == id {
            assert(a.sent_friend_requests.contains(id));
        }
    }
    assert forall|i: int|
        0 <= i < a.rec_friend_requests.len() implies #[trigger] a.rec_friend_requests[i]
        != id by {
        if a.rec_friend_requests[i] == id {
            assert(a.rec_friend_requests.contains(id));
        }
    }
    lemma_remove_by_push(a.sent_friend_requests, |x: Seq<char>| x, id, id);
    lemma_remove_by_fresh(a.sent_friend_requests, |x: Seq<char>| x, id);
    lemma_remove_by_push(a.rec_friend_requests, |x: Seq<char>| x, id, id);
    lemma_remove_by_fresh(a.rec_friend_requests, |x: Seq<char>| x, id);
    lemma_lookup_by_push(a.friend_requests, |r: FriendRequestView| r.uuid, q);
}

/// After recording `q` on a record where its id was fresh, the id is
/// pending and the lookup finds exactly `q`.
pub open spec fn lookup_pushed(a: UserDataView, q: FriendRequestView) -> bool {
    lookup_fr(a.friend_requests.push(q), q.uuid) == Some(q)
}

/// Round trip: for any two distinct identities and a fresh id, sending a
/// friend request and having it accepted leaves each party in the other's
/// friend list, and the id pending nowhere — on both nodes the record is
/// exactly the original with one friend appended.
///
/// `a` is the sender's record on the sender's node, `b` the target's
/// record on the target's node; `q` carries the two identities and the
/// fresh id.  The four steps are the two halves of operation 1 followed by
/// the two halves of operation 2, each in its protocol order.
pub proof fn lemma_friend_request_round_trip(
    a: UserDataView,
    b: UserDataView,
    q: FriendRequestView,
)
    requires
        a.wf(),
        b.wf(),
        q.from != q.to,
        a.send_friend_request_allowed(q),
        b.send_friend_request_allowed(q),
    ensures
        b.receive_friend_request(q).accept_friend_request_allowed(q.uuid),
        a.send_friend_request(q).receive_accept_allowed(q.uuid),
        b.receive_friend_request(q).accept_friend_request(q.uuid) == (UserDataView {
            friends: b.friends.push(q.from),
            ..b
        }),
        a.send_friend_request(q).receive_accept(q.uuid) == (UserDataView {
            friends: a.friends.push(q.to),
            ..a
        }),
        a.send_friend_request(q).receive_accept(q.uuid).friends.contains(q.to),
        b.receive_friend_request(q).accept_friend_request(q.uuid).friends.contains(q.from),
        !a.send_friend_request(q).receive_accept(q.uuid).has_friend_request(q.uuid),
        !b.receive_friend_request(q).accept_friend_request(q.uuid).has_friend_request(q.uuid),
        !a.send_friend_request(q).receive_accept(q.uuid).sent_friend_requests.contains(q.uuid),
        !b.receive_friend_request(q).accept_friend_request(q.uuid).rec_friend_requests.contains(
            q.uuid,
        ),
{
    broadcast use vstd::seq_lib::group_seq_properties;

    let id = q.uuid;
    let a1 = a.send_friend_request(q);
    let b1 = b.receive_friend_request(q);
    lemma_map_values_push(a.friend_requests, |r: FriendRequestView| r.uuid, q);
    lemma_map_values_push(b.friend_requests, |r: FriendRequestView| r.uuid, q);
    lemma_send_then_remove(a, q);
    lemma_send_then_remove(b, q);
    assert(b1.accept_friend_request_allowed(id));
    assert(a1.receive_accept_allowed(id));
    let b2 = b1.accept_friend_request(id);
    let a2 = a1.receive_accept(id);
    assert(b2.friends == b.friends.push(q.from));
    assert(a2.friends == a.friends.push(q.to));
    assert(a2.friends.contains(q.to));
    assert(b2.friends.contains(q.from));
}

/// Deny: sending a friend request and having it denied restores both
/// records exactly, so neither party appears in the other's friend list
/// (given that neither did before) and the id is pending nowhere.
pub proof fn lemma_deny_no_friendship(a: UserDataView, b: UserDataView, q: FriendRequestView)
    requires
        a.wf(),
        b.wf(),
        q.from != q.to,
        a.send_friend_request_allowed(q),
        b.send_friend_request_allowed(q),
    ensures
        b.receive_friend_request(q).accept_friend_request_allowed(q.uuid),
        a.send_friend_request(q).receive_accept_allowed(q.uuid),
        b.receive_friend_request(q).deny_friend_request(q.uuid) == b,
        a.send_friend_request(q).receive_deny(q.uuid) == a,
        !a.friends.contains(q.to) ==> !a.send_friend_request(q).receive_deny(
            q.uuid,
        ).friends.contains(q.to),
        !b.friends.contains(q.from) ==> !b.receive_friend_request(q).deny_friend_request(
            q.uuid,
        ).friends.contains(q.from),
{
    broadcast use vstd::seq_lib::group_seq_properties;

    let id = q.uuid;
    lemma_map_values_push(a.friend_requests, |r: FriendRequestView| r.uuid, q);
    lemma_map_values_push(b.friend_requests, |r: FriendRequestView| r.uuid, q);
    lemma_send_then_remove(a, q);
    lemma_send_then_remove(b, q);
}

/// Unfriend: after the round trip above, unfriending removes each party
/// from the other's friend list entirely — every occurrence, including any
/// that predate the round trip.
pub proof fn lemma_unfriend_round_trip(a: UserDataView, b: UserDataView, q: FriendRequestView)
    requires
        a.wf(),
        b.wf(),
        q.from != q.to,
        a.send_friend_request_allowed(q),
        b.send_friend_request_allowed(q),
    ensures
        !a.send_friend_request(q).receive_accept(q.uuid).unfriend(q.to).friends.contains(q.to),
        !b.receive_friend_request(q).accept_friend_request(q.uuid).unfriend(
            q.from,
        ).friends.contains(q.from),
{
    lemma_friend_request_round_trip(a, b, q);
    let a3 = a.send_friend_request(q).receive_accept(q.uuid).unfriend(q.to);
    let b3 = b.receive_friend_request(q).accept_friend_request(q.uuid).unfriend(q.from);
    if a3.friends.contains(q.to) {
        lemma_remove_by_contains(
            a.friends.push(q.to),
            |x: UsernameView| x,
            q.to,
            q.to,
        );
    }
    if b3.friends.contains(q.from) {
        lemma_remove_by_contains(
            b.friends.push(q.from),
            |x: UsernameView| x,
            q.from,
            q.from,
        );
    }
}

/// Duplicate id rejection: once a request has been recorded under an id,
/// no request with the same id can be sent from that record again.
pub proof fn lemma_duplicate_send_rejected(
    a: UserDataView,
    q1: FriendRequestView,
    q2: FriendRequestView,
)
    requires
        q2.uuid == q1.uuid,
    ensures
        !a.send_friend_request(q1).send_friend_request_allowed(q2),
{
    broadcast use vstd::seq_lib::group_seq_properties;

    lemma_map_values_push(a.friend_requests, |r: FriendRequestView| r.uuid, q1);
}

/// Isolation: sends by two different acting users on the same node's store
/// do not interfere.  The first send leaves the second user's record
/// untouched, each record ends exactly as its own send leaves it, and the
/// two orders of execution end in the same store.  (Two sends by the same
/// user serialize through the store's per-record transaction instead.)
pub proof fn lemma_send_isolation(
    m: Map<Seq<char>, UserDataView>,
    u1: Seq<char>,
    u2: Seq<char>,
    q1: FriendRequestView,
    q2: FriendRequestView,
)
    requires
        u1 != u2,
        m.contains_key(u1),
        m.contains_key(u2),
    ensures
        m.insert(u1, m[u1].send_friend_request(q1)).contains_key(u2),
        m.insert(u1, m[u1].send_friend_request(q1))[u2] == m[u2],
        m.insert(u1, m[u1].send_friend_request(q1)).insert(
            u2,
            m[u2].send_friend_request(q2),
        )[u1] == m[u1].send_friend_request(q1),
        m.insert(u1, m[u1].send_friend_request(q1)).insert(
            u2,
            m[u2].send_friend_request(q2),
        )[u2] == m[u2].send_friend_request(q2),
        m.insert(u1, m[u1].send_friend_request(q1)).insert(u2, m[u2].send_friend_request(q2))
            == m.insert(u2, m[u2].send_friend_request(q2)).insert(
            u1,
            m[u1].send_friend_request(q1),
        ),
{
    let d1 = m[u1].send_friend_request(q1);
    let d2 = m[u2].send_friend_request(q2);
    assert(m.insert(u1, d1).insert(u2, d2) =~= m.insert(u2, d2).insert(u1, d1));
}

} // verus!
