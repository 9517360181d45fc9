//! The executable user record: one per locally-hosted username, holding the
//! user's friends and pending friend requests and invites.  Each operation
//! of the relationship state machine is verified against its transition in
//! [`crate::model`].

use vstd::prelude::*;
use crate::errors::AppError;
use crate::identity::{Username, UsernameView};
use crate::messages::{FriendRequest, FriendRequestUuid, FriendRequestView, Invite, InviteUuid,
    InviteView};
use crate::model::{fr_ids, inv_ids, lemma_ids_invariant_insert, lemma_ids_invariant_remove,
    lemma_key_seq_contains, lemma_lookup_by_ensures, lemma_lookup_by_first, lemma_map_values_push,
    lemma_remove_by_map, lemma_remove_by_push, lookup_fr, lookup_inv, remove_fr, remove_id,
    remove_inv, remove_user, UserDataView};
use crate::seq_facts::{views, lemma_views_push};

verus! {

/// The relationship state of one locally-hosted user.
///
/// The `friends` list is ordered and not de-duplicated.  The two pending-id
/// lists of each ledger are duplicate-free and disjoint, and together hold
/// exactly the keys of the detail entries ([`UserDataView::wf`]); every
/// operation removes an id and its detail entry together.
#[derive(Debug)]
pub struct UserData {
    pub friends: Vec<Username>,
    pub sent_friend_requests: Vec<FriendRequestUuid>,
    pub rec_friend_requests: Vec<FriendRequestUuid>,
    pub friend_requests: Vec<FriendRequest>,
    pub invites: Vec<Invite>,
    pub sent_invites: Vec<InviteUuid>,
    pub rec_invites: Vec<InviteUuid>,
}

impl View for UserData {
    type V = UserDataView;

    open spec fn view(&self) -> UserDataView {
        UserDataView {
            friends: views(self.friends@),
            sent_friend_requests: views(self.sent_friend_requests@),
            rec_friend_requests: views(self.rec_friend_requests@),
            friend_requests: views(self.friend_requests@),
            invites: views(self.invites@),
            sent_invites: views(self.sent_invites@),
            rec_invites: views(self.rec_invites@),
        }
    }
}

impl Default for UserData {
    /// A freshly registered record: no friends, nothing pending.
    fn default() -> (r: UserData)
        ensures
            r@ == UserDataView::empty(),
            r@.wf(),
    {
        let r = UserData {
            friends: Vec::new(),
            sent_friend_requests: Vec::new(),
            rec_friend_requests: Vec::new(),
            friend_requests: Vec::new(),
            invites: Vec::new(),
            sent_invites: Vec::new(),
            rec_invites: Vec::new(),
        };
        proof {
            assert(views(r.friends@) =~= UserDataView::empty().friends);
            assert(views(r.sent_friend_requests@) =~= UserDataView::empty().sent_friend_requests);
            assert(views(r.rec_friend_requests@) =~= UserDataView::empty().rec_friend_requests);
            assert(views(r.friend_requests@) =~= UserDataView::empty().friend_requests);
            assert(views(r.invites@) =~= UserDataView::empty().invites);
            assert(views(r.sent_invites@) =~= UserDataView::empty().sent_invites);
            assert(views(r.rec_invites@) =~= UserDataView::empty().rec_invites);
        }
        r
    }
}

/// Whether a friend-request id list holds `id`.
fn contains_fr_id(v: &Vec<FriendRequestUuid>, id: &FriendRequestUuid) -> (r: bool)
    ensures
        r == views(v@).contains(id@),
{
    let mut j: usize = 0;
    while j < v.len()
        invariant
            j <= v@.len(),
            forall|k: int| 0 <= k < j ==> #[trigger] views(v@)[k] != id@,
        decreases v@.len() - j,
    {
        if v[j].0 == id.0 {
            proof {
                assert(views(v@)[j as int] == id@);
            }
            return true;
        }
        proof {
            assert(views(v@)[j as int] == v@[j as int]@);
        }
        j += 1;
    }
    proof {
        if views(v@).contains(id@) {
            let k = choose|k: int| 0 <= k < views(v@).len() && views(v@)[k] == id@;
        }
    }
    false
}

/// Whether an invite id list holds `id`.
fn contains_inv_id(v: &Vec<InviteUuid>, id: &InviteUuid) -> (r: bool)
    ensures
        r == views(v@).contains(id@),
{
    let mut j: usize = 0;
    while j < v.len()
        invariant
            j <= v@.len(),
            forall|k: int| 0 <= k < j ==> #[trigger] views(v@)[k] != id@,
        decreases v@.len() - j,
    {
        if v[j].0 == id.0 {
            proof {
                assert(views(v@)[j as int] == id@);
            }
            return true;
        }
        proof {
            assert(views(v@)[j as int] == v@[j as int]@);
        }
        j += 1;
    }
    proof {
        if views(v@).contains(id@) {
            let k = choose|k: int| 0 <= k < views(v@).len() && views(v@)[k] == id@;
        }
    }
    false
}

/// The position of the pending friend request keyed by `id`, if any.
fn find_fr(v: &Vec<FriendRequest>, id: &FriendRequestUuid) -> (r: Option<usize>)
    ensures
        match r {
            Some(i) => {
                &&& i < v@.len()
                &&& views(v@)[i as int].uuid == id@
                &&& lookup_fr(views(v@), id@) == Some(views(v@)[i as int])
                &&& fr_ids(views(v@)).contains(id@)
            },
            None => {
                &&& lookup_fr(views(v@), id@) is None
                &&& !fr_ids(views(v@)).contains(id@)
            },
        },
{
    let mut j: usize = 0;
    while j < v.len()
        invariant
            j <= v@.len(),
            forall|k: int| 0 <= k < j ==> (#[trigger] views(v@)[k]).uuid != id@,
        decreases v@.len() - j,
    {
        if v[j].uuid.0 == id.0 {
            proof {
                assert(views(v@)[j as int].uuid == id@);
                lemma_lookup_by_first(views(v@), |r: FriendRequestView| r.uuid, id@, j as int);
                assert(fr_ids(views(v@))[j as int] == id@);
            }
            return Some(j);
        }
        proof {
            assert(views(v@)[j as int] == v@[j as int]@);
        }
        j += 1;
    }
    proof {
        lemma_key_seq_contains(views(v@), |r: FriendRequestView| r.uuid, id@);
        lemma_lookup_by_ensures(views(v@), |r: FriendRequestView| r.uuid, id@);
    }
    None
}

/// The position of the pending invite keyed by `id`, if any.
fn find_inv(v: &Vec<Invite>, id: &InviteUuid) -> (r: Option<usize>)
    ensures
        match r {
            Some(i) => {
                &&& i < v@.len()
                &&& views(v@)[i as int].uuid == id@
                &&& lookup_inv(views(v@), id@) == Some(views(v@)[i as int])
                &&& inv_ids(views(v@)).contains(id@)
            },
            None => {
                &&& lookup_inv(views(v@), id@) is None
                &&& !inv_ids(views(v@)).contains(id@)
            },
        },
{
    let mut j: usize = 0;
    while j < v.len()
        invariant
            j <= v@.len(),
            forall|k: int| 0 <= k < j ==> (#[trigger] views(v@)[k]).uuid != id@,
        decreases v@.len() - j,
    {
        if v[j].uuid.0 == id.0 {
            proof {
                assert(views(v@)[j as int].uuid == id@);
                lemma_lookup_by_first(views(v@), |r: InviteView| r.uuid, id@, j as int);
                assert(inv_ids(views(v@))[j as int] == id@);
            }
            return Some(j);
        }
        proof {
            assert(views(v@)[j as int] == v@[j as int]@);
        }
        j += 1;
    }
    proof {
        lemma_key_seq_contains(views(v@), |r: InviteView| r.uuid, id@);
        lemma_lookup_by_ensures(views(v@), |r: InviteView| r.uuid, id@);
    }
    None
}

/// Drops the friend request keyed by `id`, keeping the rest in order.
fn remove_fr_vec(v: &mut Vec<FriendRequest>, id: &FriendRequestUuid)
    ensures
        views(final(v)@) == remove_fr(views(old(v)@), id@),
{
    let mut out: Vec<FriendRequest> = Vec::new();
    let mut j: usize = 0;
    while j < v.len()
        invariant
            j <= v@.len(),
            v@ == old(v)@,
            views(out@) == remove_fr(views(v@.subrange(0, j as int)), id@),
        decreases v@.len() - j,
    {
        proof {
            let pre = v@.subrange(0, j as int);
            assert(v@.subrange(0, j as int + 1) =~= pre.push(v@[j as int]));
            lemma_views_push(pre, v@[j as int]);
            lemma_remove_by_push(
                views(pre),
                |r: FriendRequestView| r.uuid,
                id@,
                v@[j as int]@,
            );
        }
        let x = &v[j];
        if !(x.uuid.0 == id.0) {
            let c = x.clone();
            proof {
                lemma_views_push(out@, c);
            }
            out.push(c);
        }
        j += 1;
    }
    proof {
        assert(v@.subrange(0, v@.len() as int) =~= v@);
    }
    *v = out;
}

/// Drops the invite keyed by `id`, keeping the rest in order.
fn remove_inv_vec(v: &mut Vec<Invite>, id: &InviteUuid)
    ensures
        views(final(v)@) == remove_inv(views(old(v)@), id@),
{
    let mut out: Vec<Invite> = Vec::new();
    let mut j: usize = 0;
    while j < v.len()
        invariant
            j <= v@.len(),
            v@ == old(v)@,
            views(out@) == remove_inv(views(v@.subrange(0, j as int)), id@),
        decreases v@.len() - j,
    {
        proof {
            let pre = v@.subrange(0, j as int);
            assert(v@.subrange(0, j as int + 1) =~= pre.push(v@[j as int]));
            lemma_views_push(pre, v@[j as int]);
            lemma_remove_by_push(views(pre), |r: InviteView| r.uuid, id@, v@[j as int]@);
        }
        let x = &v[j];
        if !(x.uuid.0 == id.0) {
            let c = x.clone();
            proof {
                lemma_views_push(out@, c);
            }
            out.push(c);
        }
        j += 1;
    }
    proof {
        assert(v@.subrange(0, v@.len() as int) =~= v@);
    }
    *v = out;
}

/// Drops `id` from a friend-request id list, keeping the rest in order.
fn remove_fr_id_vec(v: &mut Vec<FriendRequestUuid>, id: &FriendRequestUuid)
    ensures
        views(final(v)@) == remove_id(views(old(v)@), id@),
{
    let mut out: Vec<FriendRequestUuid> = Vec::new();
    let mut j: usize = 0;
    while j < v.len()
        invariant
            j <= v@.len(),
            v@ == old(v)@,
            views(out@) == remove_id(views(v@.subrange(0, j as int)), id@),
        decreases v@.len() - j,
    {
        proof {
            let pre = v@.subrange(0, j as int);
            assert(v@.subrange(0, j as int + 1) =~= pre.push(v@[j as int]));
            lemma_views_push(pre, v@[j as int]);
            lemma_remove_by_push(views(pre), |x: Seq<char>| x, id@, v@[j as int]@);
        }
        let x = &v[j];
        if !(x.0 == id.0) {
            let c = x.clone();
            proof {
                lemma_views_push(out@, c);
            }
            out.push(c);
        }
        j += 1;
    }
    proof {
        assert(v@.subrange(0, v@.len() as int) =~= v@);
    }
    *v = out;
}

/// Drops `id` from an invite id list, keeping the rest in order.
fn remove_inv_id_vec(v: &mut Vec<InviteUuid>, id: &InviteUuid)
    ensures
        views(final(v)@) == remove_id(views(old(v)@), id@),
{
    let mut out: Vec<InviteUuid> = Vec::new();
    let mut j: usize = 0;
    while j < v.len()
        invariant
            j <= v@.len(),
            v@ == old(v)@,
            views(out@) == remove_id(views(v@.subrange(0, j as int)), id@),
        decreases v@.len() - j,
    {
        proof {
            let pre = v@.subrange(0, j as int);
            assert(v@.subrange(0, j as int + 1) =~= pre.push(v@[j as int]));
            lemma_views_push(pre, v@[j as int]);
            lemma_remove_by_push(views(pre), |x: Seq<char>| x, id@, v@[j as int]@);
        }
        let x = &v[j];
        if !(x.0 == id.0) {
            let c = x.clone();
            proof {
                lemma_views_push(out@, c);
            }
            out.push(c);
        }
        j += 1;
    }
    proof {
        assert(v@.subrange(0, v@.len() as int) =~= v@);
    }
    *v = out;
}

/// Drops every occurrence of `t` from a friend list, keeping the rest in
/// order.
fn remove_user_vec(v: &mut Vec<Username>, t: &Username)
    ensures
        views(final(v)@) == remove_user(views(old(v)@), t@),
{
    let mut out: Vec<Username> = Vec::new();
    let mut j: usize = 0;
    while j < v.len()
        invariant
            j <= v@.len(),
            v@ == old(v)@,
            views(out@) == remove_user(views(v@.subrange(0, j as int)), t@),
        decreases v@.len() - j,
    {
        proof {
            let pre = v@.subrange(0, j as int);
            assert(v@.subrange(0, j as int + 1) =~= pre.push(v@[j as int]));
            lemma_views_push(pre, v@[j as int]);
            lemma_remove_by_push(views(pre), |x: UsernameView| x, t@, v@[j as int]@);
        }
        let x = &v[j];
        if !(x == t) {
            let c = x.clone();
            proof {
                lemma_views_push(out@, c);
            }
            out.push(c);
        }
        j += 1;
    }
    proof {
        assert(v@.subrange(0, v@.len() as int) =~= v@);
    }
    *v = out;
}

impl UserData {
    /// The sender's half of sending a friend request: records the request
    /// and marks its id as sent.  Fails with `DuplicateId`, and changes
    /// nothing, when the id is already pending here.
    pub fn send_friend_request(&mut self, req: FriendRequest) -> (r: Result<(), AppError>)
        requires
            old(self)@.wf(),
        ensures
            final(self)@.wf(),
            r is Ok <==> old(self)@.send_friend_request_allowed(req@),
            r is Ok ==> final(self)@ == old(self)@.send_friend_request(req@),
            r is Err ==> final(self)@ == old(self)@ && r == Err::<(), AppError>(AppError::DuplicateId),
    {
        match find_fr(&self.friend_requests, &req.uuid) {
            Some(_) => Err(AppError::DuplicateId),
            None => {
                proof {
                    lemma_views_push(self.sent_friend_requests@, req.uuid);
                    lemma_views_push(self.friend_requests@, req);
                    lemma_map_values_push(
                        views(self.friend_requests@),
                        |r: FriendRequestView| r.uuid,
                        req@,
                    );
                    lemma_ids_invariant_insert(
                        old(self)@.sent_friend_requests,
                        old(self)@.rec_friend_requests,
                        fr_ids(old(self)@.friend_requests),
                        req@.uuid,
                    );
                }
                let uuid = req.uuid.clone();
                self.sent_friend_requests.push(uuid);
                self.friend_requests.push(req);
                Ok(())
            },
        }
    }

    /// The receiver's half of sending a friend request: records the request
    /// and marks its id as received.  Fails with `DuplicateId`, and changes
    /// nothing, when the id is already pending here.
    pub fn receive_friend_request(&mut self, req: FriendRequest) -> (r: Result<(), AppError>)
        requires
            old(self)@.wf(),
        ensures
            final(self)@.wf(),
            r is Ok <==> old(self)@.send_friend_request_allowed(req@),
            r is Ok ==> final(self)@ == old(self)@.receive_friend_request(req@),
            r is Err ==> final(self)@ == old(self)@ && r == Err::<(), AppError>(AppError::DuplicateId),
    {
        match find_fr(&self.friend_requests, &req.uuid) {
            Some(_) => Err(AppError::DuplicateId),
            None => {
                proof {
                    lemma_views_push(self.rec_friend_requests@, req.uuid);
                    lemma_views_push(self.friend_requests@, req);
                    lemma_map_values_push(
                        views(self.friend_requests@),
                        |r: FriendRequestView| r.uuid,
                        req@,
                    );
                    lemma_ids_invariant_insert(
                        old(self)@.sent_friend_requests,
                        old(self)@.rec_friend_requests,
                        fr_ids(old(self)@.friend_requests),
                        req@.uuid,
                    );
                }
                let uuid = req.uuid.clone();
                self.rec_friend_requests.push(uuid);
                self.friend_requests.push(req);
                Ok(())
            },
        }
    }

    /// The acceptor's half of accepting a friend request: drops the pending
    /// request from this record, befriends its sender, and returns the
    /// sender's identity (the party to notify).  Fails with `NotFound`, and
    /// changes nothing, when the id is not pending here on the receiving
    /// side.
    pub fn accept_friend_request(&mut self, uuid: &FriendRequestUuid) -> (r: Result<
        Username,
        AppError,
    >)
        requires
            old(self)@.wf(),
        ensures
            final(self)@.wf(),
            r is Ok <==> old(self)@.accept_friend_request_allowed(uuid@),
            r matches Ok(u) ==> u@ == lookup_fr(old(self)@.friend_requests, uuid@).unwrap().from
                && final(self)@ == old(self)@.accept_friend_request(uuid@),
            r is Err ==> final(self)@ == old(self)@ && r == Err::<Username, AppError>(AppError::NotFound),
    {
        let i = match find_fr(&self.friend_requests, uuid) {
            None => {
                return Err(AppError::NotFound);
            },
            Some(i) => i,
        };
        if !contains_fr_id(&self.rec_friend_requests, uuid) {
            return Err(AppError::NotFound);
        }
        let from = self.friend_requests[i].from.clone();
        proof {
            lemma_remove_by_map(
                views(self.friend_requests@),
                |r: FriendRequestView| r.uuid,
                uuid@,
            );
            lemma_ids_invariant_remove(
                old(self)@.sent_friend_requests,
                old(self)@.rec_friend_requests,
                fr_ids(old(self)@.friend_requests),
                uuid@,
            );
        }
        remove_fr_vec(&mut self.friend_requests, uuid);
        remove_fr_id_vec(&mut self.rec_friend_requests, uuid);
        proof {
            lemma_views_push(self.friends@, from);
        }
        let friend = from.clone();
        self.friends.push(friend);
        Ok(from)
    }

    /// The counterpart's half of an accept: drops the pending request from
    /// this record and befriends its target.  Fails with `NotFound`, and
    /// changes nothing, when the id is not pending here on the sending
    /// side.
    pub fn receive_accept(&mut self, uuid: &FriendRequestUuid) -> (r: Result<(), AppError>)
        requires
            old(self)@.wf(),
        ensures
            final(self)@.wf(),
            r is Ok <==> old(self)@.receive_accept_allowed(uuid@),
            r is Ok ==> final(self)@ == old(self)@.receive_accept(uuid@),
            r is Err ==> final(self)@ == old(self)@ && r == Err::<(), AppError>(AppError::NotFound),
    {
        let i = match find_fr(&self.friend_requests, uuid) {
            None => {
                return Err(AppError::NotFound);
            },
            Some(i) => i,
        };
        if !contains_fr_id(&self.sent_friend_requests, uuid) {
            return Err(AppError::NotFound);
        }
        let to = self.friend_requests[i].to.clone();
        proof {
            lemma_remove_by_map(
                views(self.friend_requests@),
                |r: FriendRequestView| r.uuid,
                uuid@,
            );
            lemma_ids_invariant_remove(
                old(self)@.sent_friend_requests,
                old(self)@.rec_friend_requests,
                fr_ids(old(self)@.friend_requests),
                uuid@,
            );
        }
        remove_fr_vec(&mut self.friend_requests, uuid);
        remove_fr_id_vec(&mut self.sent_friend_requests, uuid);
        proof {
            lemma_views_push(self.friends@, to);
        }
        self.friends.push(to);
        Ok(())
    }

    /// The denier's half of denying a friend request: drops the pending
    /// request, befriends nobody, and returns the sender's identity (the
    /// party to notify).  Fails with `NotFound`, and changes nothing, when
    /// the id is not pending here on the receiving side.
    pub fn deny_friend_request(&mut self, uuid: &FriendRequestUuid) -> (r: Result<
        Username,
        AppError,
    >)
        requires
            old(self)@.wf(),
        ensures
            final(self)@.wf(),
            r is Ok <==> old(self)@.accept_friend_request_allowed(uuid@),
            r matches Ok(u) ==> u@ == lookup_fr(old(self)@.friend_requests, uuid@).unwrap().from
                && final(self)@ == old(self)@.deny_friend_request(uuid@),
            r is Err ==> final(self)@ == old(self)@ && r == Err::<Username, AppError>(AppError::NotFound),
    {
        let i = match find_fr(&self.friend_requests, uuid) {
            None => {
                return Err(AppError::NotFound);
            },
            Some(i) => i,
        };
        if !contains_fr_id(&self.rec_friend_requests, uuid) {
            return Err(AppError::NotFound);
        }
        let from = self.friend_requests[i].from.clone();
        proof {
            lemma_remove_by_map(
                views(self.friend_requests@),
                |r: FriendRequestView| r.uuid,
                uuid@,
            );
            lemma_ids_invariant_remove(
                old(self)@.sent_friend_requests,
                old(self)@.rec_friend_requests,
                fr_ids(old(self)@.friend_requests),
                uuid@,
            );
        }
        remove_fr_vec(&mut self.friend_requests, uuid);
        remove_fr_id_vec(&mut self.rec_friend_requests, uuid);
        Ok(from)
    }

    /// The counterpart's half of a deny: drops the pending request from
    /// this record.  Fails with `NotFound`, and changes nothing, when the
    /// id is not pending here on the sending side.
    pub fn receive_deny(&mut self, uuid: &FriendRequestUuid) -> (r: Result<(), AppError>)
        requires
            old(self)@.wf(),
        ensures
            final(self)@.wf(),
            r is Ok <==> old(self)@.receive_accept_allowed(uuid@),
            r is Ok ==> final(self)@ == old(self)@.receive_deny(uuid@),
            r is Err ==> final(self)@ == old(self)@ && r == Err::<(), AppError>(AppError::NotFound),
    {
        if find_fr(&self.friend_requests, uuid).is_none() {
            return Err(AppError::NotFound);
        }
        if !contains_fr_id(&self.sent_friend_requests, uuid) {
            return Err(AppError::NotFound);
        }
        proof {
            lemma_remove_by_map(
                views(self.friend_requests@),
                |r: FriendRequestView| r.uuid,
                uuid@,
            );
            lemma_ids_invariant_remove(
                old(self)@.sent_friend_requests,
                old(self)@.rec_friend_requests,
                fr_ids(old(self)@.friend_requests),
                uuid@,
            );
        }
        remove_fr_vec(&mut self.friend_requests, uuid);
        remove_fr_id_vec(&mut self.sent_friend_requests, uuid);
        Ok(())
    }

    /// Unfriending, on either side: every occurrence of the identity leaves
    /// the friend list; the pending ledgers are untouched.
    pub fn unfriend(&mut self, target: &Username)
        ensures
            final(self)@ == old(self)@.unfriend(target@),
            old(self)@.wf() ==> final(self)@.wf(),
    {
        remove_user_vec(&mut self.friends, target);
    }

    /// The sender's half of sending an invite.  Fails with `DuplicateId`,
    /// and changes nothing, when the id is already pending here.
    pub fn send_invite(&mut self, inv: Invite) -> (r: Result<(), AppError>)
        requires
            old(self)@.wf(),
        ensures
            final(self)@.wf(),
            r is Ok <==> old(self)@.send_invite_allowed(inv@),
            r is Ok ==> final(self)@ == old(self)@.send_invite(inv@),
            r is Err ==> final(self)@ == old(self)@ && r == Err::<(), AppError>(AppError::DuplicateId),
    {
        match find_inv(&self.invites, &inv.uuid) {
            Some(_) => Err(AppError::DuplicateId),
            None => {
                proof {
                    lemma_views_push(self.sent_invites@, inv.uuid);
                    lemma_views_push(self.invites@, inv);
                    lemma_map_values_push(views(self.invites@), |r: InviteView| r.uuid, inv@);
                    lemma_ids_invariant_insert(
                        old(self)@.sent_invites,
                        old(self)@.rec_invites,
                        inv_ids(old(self)@.invites),
                        inv@.uuid,
                    );
                }
                let uuid = inv.uuid.clone();
                self.sent_invites.push(uuid);
                self.invites.push(inv);
                Ok(())
            },
        }
    }

    /// The receiver's half of sending an invite.  Fails with `DuplicateId`,
    /// and changes nothing, when the id is already pending here.
    pub fn receive_invite(&mut self, inv: Invite) -> (r: Result<(), AppError>)
        requires
            old(self)@.wf(),
        ensures
            final(self)@.wf(),
            r is Ok <==> old(self)@.send_invite_allowed(inv@),
            r is Ok ==> final(self)@ == old(self)@.receive_invite(inv@),
            r is Err ==> final(self)@ == old(self)@ && r == Err::<(), AppError>(AppError::DuplicateId),
    {
        match find_inv(&self.invites, &inv.uuid) {
            Some(_) => Err(AppError::DuplicateId),
            None => {
                proof {
                    lemma_views_push(self.rec_invites@, inv.uuid);
                    lemma_views_push(self.invites@, inv);
                    lemma_map_values_push(views(self.invites@), |r: InviteView| r.uuid, inv@);
                    lemma_ids_invariant_insert(
                        old(self)@.sent_invites,
                        old(self)@.rec_invites,
                        inv_ids(old(self)@.invites),
                        inv@.uuid,
                    );
                }
                let uuid = inv.uuid.clone();
                self.rec_invites.push(uuid);
                self.invites.push(inv);
                Ok(())
            },
        }
    }

    /// Removes a pending invite from this record and returns the other
    /// endpoint of the invite (the party to notify).  Fails with
    /// `NotFound`, and changes nothing, when the id is not pending here.
    pub fn remove_invite(&mut self, uuid: &InviteUuid) -> (r: Result<Username, AppError>)
        requires
            old(self)@.wf(),
        ensures
            final(self)@.wf(),
            r is Ok <==> old(self)@.remove_invite_allowed(uuid@),
            r matches Ok(u) ==> u@ == old(self)@.invite_peer(uuid@) && final(self)@ == old(
                self,
            )@.remove_invite(uuid@),
            r is Err ==> final(self)@ == old(self)@ && r == Err::<Username, AppError>(AppError::NotFound),
    {
        let i = match find_inv(&self.invites, uuid) {
            None => {
                return Err(AppError::NotFound);
            },
            Some(i) => i,
        };
        let peer = if contains_inv_id(&self.sent_invites, uuid) {
            self.invites[i].to.clone()
        } else {
            self.invites[i].from.clone()
        };
        proof {
            lemma_remove_by_map(views(self.invites@), |r: InviteView| r.uuid, uuid@);
            lemma_ids_invariant_remove(
                old(self)@.sent_invites,
                old(self)@.rec_invites,
                inv_ids(old(self)@.invites),
                uuid@,
            );
        }
        remove_inv_vec(&mut self.invites, uuid);
        remove_inv_id_vec(&mut self.sent_invites, uuid);
        remove_inv_id_vec(&mut self.rec_invites, uuid);
        Ok(peer)
    }

    /// The detail of a pending friend request, by id.
    pub fn get_friend_request(&self, uuid: &FriendRequestUuid) -> (r: Option<&FriendRequest>)
        ensures
            match r {
                Some(q) => lookup_fr(self@.friend_requests, uuid@) == Some(q@),
                None => lookup_fr(self@.friend_requests, uuid@) is None,
            },
    {
        match find_fr(&self.friend_requests, uuid) {
            None => None,
            Some(i) => Some(&self.friend_requests[i]),
        }
    }

    /// The detail of a pending invite, by id.
    pub fn get_invite(&self, uuid: &InviteUuid) -> (r: Option<&Invite>)
        ensures
            match r {
                Some(v) => lookup_inv(self@.invites, uuid@) == Some(v@),
                None => lookup_inv(self@.invites, uuid@) is None,
            },
    {
        match find_inv(&self.invites, uuid) {
            None => None,
            Some(i) => Some(&self.invites[i]),
        }
    }

    /// The counterpart's half of an invite removal: drops the invite if it
    /// is pending here, and does nothing otherwise.  Idempotent, so a
    /// replayed removal notice is harmless.
    pub fn receive_remove_invite(&mut self, uuid: &InviteUuid)
        requires
            old(self)@.wf(),
        ensures
            final(self)@.wf(),
            final(self)@ == old(self)@.remove_invite(uuid@),
    {
        proof {
            lemma_remove_by_map(views(self.invites@), |r: InviteView| r.uuid, uuid@);
            lemma_ids_invariant_remove(
                old(self)@.sent_invites,
                old(self)@.rec_invites,
                inv_ids(old(self)@.invites),
                uuid@,
            );
        }
        remove_inv_vec(&mut self.invites, uuid);
        remove_inv_id_vec(&mut self.sent_invites, uuid);
        remove_inv_id_vec(&mut self.rec_invites, uuid);
    }
}

} // verus!
