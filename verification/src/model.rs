//! The mathematical model of a user record and of the relationship state
//! machine: what each operation of the friend-request and invite lifecycle
//! does to a record, as pure functions on sequences.

use vstd::prelude::*;
use crate::identity::UsernameView;
use crate::messages::{FriendRequestView, InviteView};
use crate::seq_facts::lemma_push_no_duplicates;

verus! {

/// The ids of a sequence of friend requests, in order.
pub open spec fn fr_ids(reqs: Seq<FriendRequestView>) -> Seq<Seq<char>> {
    reqs.map_values(|r: FriendRequestView| r.uuid)
}

/// The ids of a sequence of invites, in order.
pub open spec fn inv_ids(invs: Seq<InviteView>) -> Seq<Seq<char>> {
    invs.map_values(|v: InviteView| v.uuid)
}

/// The first element of `s` whose key is `id`, if any.
pub open spec fn lookup_by<A, B>(s: Seq<A>, key: spec_fn(A) -> B, id: B) -> Option<A>
    decreases s.len(),
{
    if s.len() == 0 {
        None
    } else if key(s[0]) == id {
        Some(s[0])
    } else {
        lookup_by(s.drop_first(), key, id)
    }
}

/// All elements of `s` but those whose key is `id`.
pub open spec fn remove_by<A, B>(s: Seq<A>, key: spec_fn(A) -> B, id: B) -> Seq<A> {
    s.filter(|x: A| key(x) != id)
}

/// The pending friend request stored under `id`, if any.
pub open spec fn lookup_fr(reqs: Seq<FriendRequestView>, id: Seq<char>) -> Option<
    FriendRequestView,
> {
    lookup_by(reqs, |r: FriendRequestView| r.uuid, id)
}

/// The pending invite stored under `id`, if any.
pub open spec fn lookup_inv(invs: Seq<InviteView>, id: Seq<char>) -> Option<InviteView> {
    lookup_by(invs, |v: InviteView| v.uuid, id)
}

/// All friend requests but the one keyed by `id`.
pub open spec fn remove_fr(reqs: Seq<FriendRequestView>, id: Seq<char>) -> Seq<
    FriendRequestView,
> {
    remove_by(reqs, |r: FriendRequestView| r.uuid, id)
}

/// All invites but the one keyed by `id`.
pub open spec fn remove_inv(invs: Seq<InviteView>, id: Seq<char>) -> Seq<InviteView> {
    remove_by(invs, |v: InviteView| v.uuid, id)
}

/// All ids but `id`.
pub open spec fn remove_id(ids: Seq<Seq<char>>, id: Seq<char>) -> Seq<Seq<char>> {
    remove_by(ids, |x: Seq<char>| x, id)
}

/// All identities but `t` (every occurrence removed).
pub open spec fn remove_user(fs: Seq<UsernameView>, t: UsernameView) -> Seq<UsernameView> {
    remove_by(fs, |x: UsernameView| x, t)
}

/// What `lookup_by` finds: a hit is an element of `s` with key `id`, and a
/// hit exists exactly when some key equals `id`.
pub proof fn lemma_lookup_by_ensures<A, B>(s: Seq<A>, key: spec_fn(A) -> B, id: B)
    ensures
        (lookup_by(s, key, id) is Some) <==> s.map_values(key).contains(id),
        lookup_by(s, key, id) matches Some(q) ==> s.contains(q) && key(q) == id,
    decreases s.len(),
{
    let m = s.map_values(key);
    if s.len() == 0 {
    } else if key(s[0]) == id {
        assert(m[0] == id);
        assert(s.contains(s[0]));
    } else {
        let rest = s.drop_first();
        lemma_lookup_by_ensures(rest, key, id);
        let mrest = rest.map_values(key);
        assert(m.contains(id) <==> mrest.contains(id)) by {
            if m.contains(id) {
                let i = choose|i: int| 0 <= i < m.len() && m[i] == id;
                assert(m[0] == key(s[0]));
                assert(i > 0);
                assert(rest[i - 1] == s[i]);
                assert(mrest[i - 1] == key(rest[i - 1]));
            }
            if mrest.contains(id) {
                let i = choose|i: int| 0 <= i < mrest.len() && mrest[i] == id;
                assert(rest[i] == s[i + 1]);
                assert(m[i + 1] == key(s[i + 1]));
            }
        }
        match lookup_by(s, key, id) {
            Some(q) => {
                let i = choose|i: int| 0 <= i < rest.len() && rest[i] == q;
                assert(s[i + 1] == q);
            },
            None => {},
        }
    }
}

/// When position `i` holds the first key hit, `lookup_by` returns exactly
/// the element there.
pub proof fn lemma_lookup_by_first<A, B>(s: Seq<A>, key: spec_fn(A) -> B, id: B, i: int)
    requires
        0 <= i < s.len(),
        key(s[i]) == id,
        forall|j: int| 0 <= j < i ==> key(#[trigger] s[j]) != id,
    ensures
        lookup_by(s, key, id) == Some(s[i]),
    decreases i,
{
    if i == 0 {
    } else {
        let rest = s.drop_first();
        assert(key(s[0]) != id);
        assert(rest[i - 1] == s[i]);
        assert forall|j: int| 0 <= j < i - 1 implies key(#[trigger] rest[j]) != id by {
            assert(rest[j] == s[j + 1]);
        }
        lemma_lookup_by_first(rest, key, id, i - 1);
    }
}

/// Appending an entry with a fresh key makes `lookup_by` find it.
pub proof fn lemma_lookup_by_push<A, B>(s: Seq<A>, key: spec_fn(A) -> B, q: A)
    requires
        !s.map_values(key).contains(key(q)),
    ensures
        lookup_by(s.push(q), key, key(q)) == Some(q),
{
    let t = s.push(q);
    assert forall|j: int| 0 <= j < s.len() implies key(#[trigger] t[j]) != key(q) by {
        assert(t[j] == s[j]);
        assert(s.map_values(key)[j] == key(s[j]));
    }
    assert(t[s.len() as int] == q);
    lemma_lookup_by_first(t, key, key(q), s.len() as int);
}

/// A removal holds `y` exactly when the original holds `y` under some
/// other key.
pub proof fn lemma_remove_by_contains<A, B>(s: Seq<A>, key: spec_fn(A) -> B, id: B, y: A)
    ensures
        remove_by(s, key, id).contains(y) <==> (s.contains(y) && key(y) != id),
    decreases s.len(),
{
    reveal(Seq::filter);
    let p = |x: A| key(x) != id;
    if s.len() > 0 {
        let rest = s.drop_last();
        let last = s.last();
        lemma_remove_by_contains(rest, key, id, y);
        assert(s.contains(y) <==> (rest.contains(y) || y == last)) by {
            if rest.contains(y) {
                let i = choose|i: int| 0 <= i < rest.len() && rest[i] == y;
                assert(s[i] == y);
            }
            if s.contains(y) {
                let i = choose|i: int| 0 <= i < s.len() && s[i] == y;
                if i < s.len() - 1 {
                    assert(rest[i] == y);
                }
            }
        }
        if p(last) {
            assert(s.filter(p).contains(y) <==> (rest.filter(p).contains(y) || y == last)) by {
                if rest.filter(p).contains(y) {
                    let i = choose|i: int|
                        0 <= i < rest.filter(p).len() && rest.filter(p)[i] == y;
                    assert(s.filter(p)[i] == y);
                }
                if s.filter(p).contains(y) {
                    let i = choose|i: int| 0 <= i < s.filter(p).len() && s.filter(p)[i] == y;
                    if i < s.filter(p).len() - 1 {
                        assert(rest.filter(p)[i] == y);
                    }
                }
            }
        }
    }
}

/// Removal keeps a sequence duplicate-free.
pub proof fn lemma_remove_by_no_duplicates<A, B>(s: Seq<A>, key: spec_fn(A) -> B, id: B)
    requires
        s.no_duplicates(),
    ensures
        remove_by(s, key, id).no_duplicates(),
    decreases s.len(),
{
    reveal(Seq::filter);
    let p = |x: A| key(x) != id;
    if s.len() > 0 {
        let rest = s.drop_last();
        let last = s.last();
        assert(rest.no_duplicates());
        lemma_remove_by_no_duplicates(rest, key, id);
        if p(last) {
            if rest.filter(p).contains(last) {
                lemma_remove_by_contains(rest, key, id, last);
                let i = choose|i: int| 0 <= i < rest.len() && rest[i] == last;
                assert(s[i] == s[s.len() - 1]);
            }
            lemma_push_no_duplicates(rest.filter(p), last);
        }
    }
}

/// Removal of one more element distributes over push.
pub proof fn lemma_remove_by_push<A, B>(s: Seq<A>, key: spec_fn(A) -> B, id: B, x: A)
    ensures
        remove_by(s.push(x), key, id) == if key(x) != id {
            remove_by(s, key, id).push(x)
        } else {
            remove_by(s, key, id)
        },
{
    reveal(Seq::filter);
    assert(s.push(x).drop_last() =~= s);
}

/// Removing a key that no element carries changes nothing.
pub proof fn lemma_remove_by_fresh<A, B>(s: Seq<A>, key: spec_fn(A) -> B, id: B)
    requires
        forall|i: int| 0 <= i < s.len() ==> key(#[trigger] s[i]) != id,
    ensures
        remove_by(s, key, id) == s,
    decreases s.len(),
{
    reveal(Seq::filter);
    let p = |x: A| key(x) != id;
    if s.len() > 0 {
        let rest = s.drop_last();
        assert(forall|i: int| 0 <= i < rest.len() ==> key(#[trigger] rest[i]) != id);
        lemma_remove_by_fresh(rest, key, id);
        assert(s.filter(p) =~= s);
    }
}

/// The keys of a removal are the keys minus the removed one.
pub proof fn lemma_remove_by_map<A, B>(s: Seq<A>, key: spec_fn(A) -> B, id: B)
    ensures
        remove_by(s, key, id).map_values(key) == remove_by(
            s.map_values(key),
            |x: B| x,
            id,
        ),
    decreases s.len(),
{
    reveal(Seq::filter);
    let p = |x: A| key(x) != id;
    let q = |x: B| x != id;
    let m = s.map_values(key);
    if s.len() == 0 {
        assert(s.filter(p).map_values(key) =~= m.filter(q));
    } else {
        let rest = s.drop_last();
        let last = s.last();
        lemma_remove_by_map(rest, key, id);
        let mrest = rest.map_values(key);
        assert(m =~= mrest.push(key(last)));
        assert(m.drop_last() =~= mrest);
        assert(s.filter(p) == if p(last) {
            rest.filter(p).push(last)
        } else {
            rest.filter(p)
        }) by {
            assert(s.drop_last() =~= rest);
        }
        if p(last) {
            assert(rest.filter(p).push(last).map_values(key) =~= rest.filter(p).map_values(
                key,
            ).push(key(last)));
        }
    }
}

/// Membership in a mapped key sequence is existence of an element with
/// that key.
pub proof fn lemma_key_seq_contains<A, B>(s: Seq<A>, key: spec_fn(A) -> B, id: B)
    ensures
        s.map_values(key).contains(id) <==> exists|i: int|
            0 <= i < s.len() && key(#[trigger] s[i]) == id,
{
    let m = s.map_values(key);
    if m.contains(id) {
        let i = choose|i: int| 0 <= i < m.len() && m[i] == id;
        assert(key(s[i]) == id);
    }
    if exists|i: int| 0 <= i < s.len() && key(#[trigger] s[i]) == id {
        let i = choose|i: int| 0 <= i < s.len() && key(#[trigger] s[i]) == id;
        assert(m[i] == key(s[i]));
    }
}

/// Pushing a value and then taking keys is taking keys and then pushing
/// the value's key.
pub proof fn lemma_map_values_push<A, B>(s: Seq<A>, key: spec_fn(A) -> B, x: A)
    ensures
        s.push(x).map_values(key) == s.map_values(key).push(key(x)),
{
    assert(s.push(x).map_values(key) =~= s.map_values(key).push(key(x)));
}

/// The shape shared by the two pending-id ledgers of a record: the sent and
/// received id lists are duplicate-free and disjoint, and together they
/// hold exactly the keys of the detail entries.
pub open spec fn ids_invariant(
    sent: Seq<Seq<char>>,
    rec: Seq<Seq<char>>,
    ids: Seq<Seq<char>>,
) -> bool {
    &&& sent.no_duplicates()
    &&& rec.no_duplicates()
    &&& ids.no_duplicates()
    &&& forall|id: Seq<char>| #[trigger] sent.contains(id) ==> ids.contains(id)
    &&& forall|id: Seq<char>| #[trigger] rec.contains(id) ==> ids.contains(id)
    &&& forall|id: Seq<char>| #[trigger] ids.contains(id) ==> sent.contains(id) || rec.contains(id)
    &&& forall|id: Seq<char>| #[trigger] sent.contains(id) ==> !rec.contains(id)
}

/// The mathematical content of a user record.
pub ghost struct UserDataView {
    pub friends: Seq<UsernameView>,
    pub sent_friend_requests: Seq<Seq<char>>,
    pub rec_friend_requests: Seq<Seq<char>>,
    pub friend_requests: Seq<FriendRequestView>,
    pub invites: Seq<InviteView>,
    pub sent_invites: Seq<Seq<char>>,
    pub rec_invites: Seq<Seq<char>>,
}

impl UserDataView {
    /// A freshly registered record: no friends, nothing pending.
    pub open spec fn empty() -> UserDataView {
        UserDataView {
            friends: Seq::empty(),
            sent_friend_requests: Seq::empty(),
            rec_friend_requests: Seq::empty(),
            friend_requests: Seq::empty(),
            invites: Seq::empty(),
            sent_invites: Seq::empty(),
            rec_invites: Seq::empty(),
        }
    }

    /// Well-formedness: both ledgers (friend requests and invites) satisfy
    /// [`ids_invariant`].  Every operation of the state machine preserves
    /// this.
    pub open spec fn wf(self) -> bool {
        &&& ids_invariant(
            self.sent_friend_requests,
            self.rec_friend_requests,
            fr_ids(self.friend_requests),
        )
        &&& ids_invariant(self.sent_invites, self.rec_invites, inv_ids(self.invites))
    }

    /// Whether a friend request with this id is pending on either side.
    pub open spec fn has_friend_request(self, id: Seq<char>) -> bool {
        fr_ids(self.friend_requests).contains(id)
    }

    /// Whether an invite with this id is pending on either side.
    pub open spec fn has_invite(self, id: Seq<char>) -> bool {
        inv_ids(self.invites).contains(id)
    }

    /// Sending is allowed while the id is fresh on this record.
    pub open spec fn send_friend_request_allowed(self, q: FriendRequestView) -> bool {
        !self.has_friend_request(q.uuid)
    }

    /// The sender's half of sending a friend request: record the request
    /// and mark its id as sent.
    pub open spec fn send_friend_request(self, q: FriendRequestView) -> UserDataView {
        UserDataView {
            friend_requests: self.friend_requests.push(q),
            sent_friend_requests: self.sent_friend_requests.push(q.uuid),
            ..self
        }
    }

    /// The receiver's half of sending a friend request: record the request
    /// and mark its id as received.
    pub open spec fn receive_friend_request(self, q: FriendRequestView) -> UserDataView {
        UserDataView {
            friend_requests: self.friend_requests.push(q),
            rec_friend_requests: self.rec_friend_requests.push(q.uuid),
            ..self
        }
    }

    /// Accepting is allowed when the id is pending here on the receiving
    /// side.
    pub open spec fn accept_friend_request_allowed(self, id: Seq<char>) -> bool {
        self.has_friend_request(id) && self.rec_friend_requests.contains(id)
    }

    /// The acceptor's half of accepting: drop the pending request and
    /// befriend its sender.
    pub open spec fn accept_friend_request(self, id: Seq<char>) -> UserDataView {
        UserDataView {
            friends: self.friends.push(lookup_fr(self.friend_requests, id).unwrap().from),
            friend_requests: remove_fr(self.friend_requests, id),
            rec_friend_requests: remove_id(self.rec_friend_requests, id),
            ..self
        }
    }

    /// The counterpart's half of an accept is allowed when the id is
    /// pending here on the sending side.
    pub open spec fn receive_accept_allowed(self, id: Seq<char>) -> bool {
        self.has_friend_request(id) && self.sent_friend_requests.contains(id)
    }

    /// The counterpart's half of accepting: drop the pending request and
    /// befriend its target.
    pub open spec fn receive_accept(self, id: Seq<char>) -> UserDataView {
        UserDataView {
            friends: self.friends.push(lookup_fr(self.friend_requests, id).unwrap().to),
            friend_requests: remove_fr(self.friend_requests, id),
            sent_friend_requests: remove_id(self.sent_friend_requests, id),
            ..self
        }
    }

    /// The denier's half of denying: drop the pending request, befriend
    /// nobody.
    pub open spec fn deny_friend_request(self, id: Seq<char>) -> UserDataView {
        UserDataView {
            friend_requests: remove_fr(self.friend_requests, id),
            rec_friend_requests: remove_id(self.rec_friend_requests, id),
            ..self
        }
    }

    /// The counterpart's half of a deny: drop the pending request.
    pub open spec fn receive_deny(self, id: Seq<char>) -> UserDataView {
        UserDataView {
            friend_requests: remove_fr(self.friend_requests, id),
            sent_friend_requests: remove_id(self.sent_friend_requests, id),
            ..self
        }
    }

    /// Unfriending, on either side: every occurrence of the identity leaves
    /// the friend list.
    pub open spec fn unfriend(self, t: UsernameView) -> UserDataView {
        UserDataView { friends: remove_user(self.friends, t), ..self }
    }

    /// Sending an invite is allowed while the id is fresh on this record.
    pub open spec fn send_invite_allowed(self, v: InviteView) -> bool {
        !self.has_invite(v.uuid)
    }

    /// The sender's half of sending an invite.
    pub open spec fn send_invite(self, v: InviteView) -> UserDataView {
        UserDataView {
            invites: self.invites.push(v),
            sent_invites: self.sent_invites.push(v.uuid),
            ..self
        }
    }

    /// The receiver's half of sending an invite.
    pub open spec fn receive_invite(self, v: InviteView) -> UserDataView {
        UserDataView {
            invites: self.invites.push(v),
            rec_invites: self.rec_invites.push(v.uuid),
            ..self
        }
    }

    /// Removal of an invite is allowed while the id is pending here.
    pub open spec fn remove_invite_allowed(self, id: Seq<char>) -> bool {
        self.has_invite(id)
    }

    /// Removing an invite, on either side: the id leaves the detail store
    /// and whichever pending list held it.
    pub open spec fn remove_invite(self, id: Seq<char>) -> UserDataView {
        UserDataView {
            invites: remove_inv(self.invites, id),
            sent_invites: remove_id(self.sent_invites, id),
            rec_invites: remove_id(self.rec_invites, id),
            ..self
        }
    }

    /// The other endpoint of a pending invite: its target when this record
    /// sent it, its sender when this record received it.
    pub open spec fn invite_peer(self, id: Seq<char>) -> UsernameView {
        let v = lookup_inv(self.invites, id).unwrap();
        if self.sent_invites.contains(id) {
            v.to
        } else {
            v.from
        }
    }
}

/// Adding a fresh id to the detail store and to one pending list keeps the
/// ledger invariant.
pub proof fn lemma_ids_invariant_insert(
    sent: Seq<Seq<char>>,
    rec: Seq<Seq<char>>,
    ids: Seq<Seq<char>>,
    id: Seq<char>,
)
    requires
        ids_invariant(sent, rec, ids),
        !ids.contains(id),
    ensures
        ids_invariant(sent.push(id), rec, ids.push(id)),
        ids_invariant(sent, rec.push(id), ids.push(id)),
{
    broadcast use vstd::seq_lib::group_seq_properties;

    lemma_push_no_duplicates(ids, id);
    lemma_push_no_duplicates(sent, id);
    lemma_push_no_duplicates(rec, id);
}

/// Removing an id from the detail store and from the pending lists keeps
/// the ledger invariant, whether it is removed from one list or from both.
pub proof fn lemma_ids_invariant_remove(
    sent: Seq<Seq<char>>,
    rec: Seq<Seq<char>>,
    ids: Seq<Seq<char>>,
    id: Seq<char>,
)
    requires
        ids_invariant(sent, rec, ids),
    ensures
        !sent.contains(id) ==> ids_invariant(sent, remove_id(rec, id), remove_id(ids, id)),
        !rec.contains(id) ==> ids_invariant(remove_id(sent, id), rec, remove_id(ids, id)),
        ids_invariant(remove_id(sent, id), remove_id(rec, id), remove_id(ids, id)),
{
    lemma_remove_by_no_duplicates(sent, |x: Seq<char>| x, id);
    lemma_remove_by_no_duplicates(rec, |x: Seq<char>| x, id);
    lemma_remove_by_no_duplicates(ids, |x: Seq<char>| x, id);
    assert forall|y: Seq<char>| #[trigger]
        remove_id(sent, id).contains(y) <==> (sent.contains(y) && y != id) by {
        lemma_remove_by_contains(sent, |x: Seq<char>| x, id, y);
    }
    assert forall|y: Seq<char>| #[trigger]
        remove_id(rec, id).contains(y) <==> (rec.contains(y) && y != id) by {
        lemma_remove_by_contains(rec, |x: Seq<char>| x, id, y);
    }
    assert forall|y: Seq<char>| #[trigger]
        remove_id(ids, id).contains(y) <==> (ids.contains(y) && y != id) by {
        lemma_remove_by_contains(ids, |x: Seq<char>| x, id, y);
    }
}

} // verus!
