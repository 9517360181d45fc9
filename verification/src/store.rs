//! The per-node user store: one record per locally-hosted username, with
//! atomic read-modify-write per record.  Every state-machine operation is a
//! single transaction on one named record; its contract says exactly how
//! that user's entry in the store's map changes and that every other entry
//! is untouched.

use vstd::prelude::*;
use crate::errors::AppError;
use crate::identity::Username;
use crate::messages::{FriendRequest, FriendRequestUuid, Invite, InviteUuid};
use crate::model::{lemma_key_seq_contains, lookup_fr, lookup_inv, UserDataView};
use crate::record::UserData;
use crate::seq_facts::{views, lemma_push_no_duplicates};

verus! {

/// One named record of the store.
pub struct StoreEntry {
    pub name: String,
    pub data: UserData,
}

/// The usernames of the entries, in order.
pub open spec fn store_names(s: Seq<StoreEntry>) -> Seq<Seq<char>> {
    s.map_values(|e: StoreEntry| e.name@)
}

/// The map a sequence of entries stands for.  With duplicate-free names the
/// order of the entries does not matter.
pub open spec fn store_map(s: Seq<StoreEntry>) -> Map<Seq<char>, UserDataView>
    decreases s.len(),
{
    if s.len() == 0 {
        Map::empty()
    } else {
        store_map(s.drop_last()).insert(s.last().name@, s.last().data@)
    }
}

/// With duplicate-free names, the map holds exactly the named records.
pub proof fn lemma_store_map_props(s: Seq<StoreEntry>)
    requires
        store_names(s).no_duplicates(),
    ensures
        forall|n: Seq<char>|
            #[trigger] store_map(s).contains_key(n) <==> store_names(s).contains(n),
        forall|i: int|
            0 <= i < s.len() ==> store_map(s)[(#[trigger] s[i]).name@] == s[i].data@
                && store_map(s).contains_key(s[i].name@),
    decreases s.len(),
{
    broadcast use vstd::seq_lib::group_seq_properties;

    if s.len() == 0 {
        assert forall|n: Seq<char>| !(#[trigger] store_names(s).contains(n)) by {
            if store_names(s).contains(n) {
                let k = choose|k: int|
                    0 <= k < store_names(s).len() && store_names(s)[k] == n;
            }
        }
    } else {
        let rest = s.drop_last();
        let last = s.last();
        assert(store_names(rest) =~= store_names(s).drop_last());
        assert(store_names(rest).no_duplicates()) by {
            assert forall|a: int, b: int|
                0 <= a < store_names(rest).len() && 0 <= b < store_names(rest).len() && a != b
                    implies store_names(rest)[a] != store_names(rest)[b] by {
                assert(store_names(rest)[a] == store_names(s)[a]);
                assert(store_names(rest)[b] == store_names(s)[b]);
            }
        }
        lemma_store_map_props(rest);
        assert(store_names(s) =~= store_names(rest).push(last.name@));
        assert forall|n: Seq<char>|
            #[trigger] store_map(s).contains_key(n) <==> store_names(s).contains(n) by {
            assert(store_map(s) == store_map(rest).insert(last.name@, last.data@));
        }
        assert forall|i: int| 0 <= i < s.len() implies store_map(s)[(#[trigger] s[i]).name@]
            == s[i].data@ && store_map(s).contains_key(s[i].name@) by {
            if i < s.len() - 1 {
                assert(store_names(s)[i] != store_names(s)[s.len() - 1]);
                assert(rest[i] == s[i]);
                assert(store_map(rest)[s[i].name@] == s[i].data@);
            }
        }
    }
}

/// Replacing the data of one entry replaces that name's value in the map
/// and keeps the names.
pub proof fn lemma_store_map_update(s: Seq<StoreEntry>, s2: Seq<StoreEntry>, i: int)
    requires
        store_names(s).no_duplicates(),
        0 <= i < s.len(),
        s2.len() == s.len(),
        s2[i].name@ == s[i].name@,
        forall|j: int| 0 <= j < s.len() && j != i ==> s2[j] == s[j],
    ensures
        store_names(s2) == store_names(s),
        store_map(s2) == store_map(s).insert(s[i].name@, s2[i].data@),
    decreases s.len(),
{
    assert(store_names(s2) =~= store_names(s));
    let rest = s.drop_last();
    let rest2 = s2.drop_last();
    if i == s.len() - 1 {
        assert(rest2 =~= rest);
        assert(store_map(s).insert(s[i].name@, s2[i].data@) =~= store_map(rest).insert(
            s[i].name@,
            s2[i].data@,
        ));
    } else {
        assert(store_names(rest) =~= store_names(s).drop_last());
        assert(store_names(rest).no_duplicates()) by {
            assert forall|a: int, b: int|
                0 <= a < store_names(rest).len() && 0 <= b < store_names(rest).len() && a != b
                    implies store_names(rest)[a] != store_names(rest)[b] by {
                assert(store_names(rest)[a] == store_names(s)[a]);
                assert(store_names(rest)[b] == store_names(s)[b]);
            }
        }
        assert forall|j: int| 0 <= j < rest.len() && j != i implies rest2[j] == rest[j] by {
            assert(s2[j] == s[j]);
        }
        lemma_store_map_update(rest, rest2, i);
        assert(s2.last() == s.last());
        assert(store_names(s)[i] != store_names(s)[s.len() - 1]);
        assert(store_map(rest).insert(s[i].name@, s2[i].data@).insert(
            s.last().name@,
            s.last().data@,
        ) =~= store_map(rest).insert(s.last().name@, s.last().data@).insert(
            s[i].name@,
            s2[i].data@,
        ));
    }
}

/// Appending an entry inserts it into the map.
pub proof fn lemma_store_map_push(s: Seq<StoreEntry>, e: StoreEntry)
    ensures
        store_map(s.push(e)) == store_map(s).insert(e.name@, e.data@),
{
    assert(s.push(e).drop_last() =~= s);
    assert(s.push(e).last() == e);
}

/// The per-node store: durable keyed records, one per local username, each
/// mutated only through a state-machine operation that works on that single
/// record.
pub struct Store {
    pub users: Vec<StoreEntry>,
}

impl View for Store {
    type V = Map<Seq<char>, UserDataView>;

    open spec fn view(&self) -> Map<Seq<char>, UserDataView> {
        store_map(self.users@)
    }
}

impl Store {
    /// Well-formedness: names are unique and every record is well-formed.
    pub open spec fn wf(&self) -> bool {
        &&& store_names(self.users@).no_duplicates()
        &&& forall|i: int| 0 <= i < self.users@.len() ==> (#[trigger] self.users@[i]).data@.wf()
    }

    /// An empty store: no users registered.
    pub fn new() -> (r: Store)
        ensures
            r@ == Map::<Seq<char>, UserDataView>::empty(),
            r.wf(),
    {
        let r = Store { users: Vec::new() };
        proof {
            assert(store_names(r.users@) =~= Seq::<Seq<char>>::empty());
        }
        r
    }

    /// The position of the record named `username`, if any.
    fn find(&self, username: &String) -> (r: Option<usize>)
        ensures
            match r {
                Some(i) => i < self.users@.len() && self.users@[i as int].name@ == username@,
                None => !store_names(self.users@).contains(username@),
            },
    {
        let mut j: usize = 0;
        while j < self.users.len()
            invariant
                j <= self.users@.len(),
                forall|k: int| 0 <= k < j ==> (#[trigger] self.users@[k]).name@ != username@,
            decreases self.users@.len() - j,
        {
            if self.users[j].name == *username {
                return Some(j);
            }
            j += 1;
        }
        proof {
            lemma_key_seq_contains(self.users@, |e: StoreEntry| e.name@, username@);
        }
        None
    }

    /// Registers an empty record for a new username.  Fails with
    /// `AlreadyExists`, and changes nothing, when the username already has
    /// a record: registration never silently resets existing state.
    pub fn register(&mut self, username: &String) -> (r: Result<(), AppError>)
        requires
            old(self).wf(),
        ensures
            final(self).wf(),
            r is Ok <==> !old(self)@.contains_key(username@),
            r is Ok ==> final(self)@ == old(self)@.insert(username@, UserDataView::empty()),
            r is Err ==> final(self)@ == old(self)@ && r == Err::<(), AppError>(
                AppError::AlreadyExists,
            ),
    {
        proof {
            lemma_store_map_props(self.users@);
        }
        match self.find(username) {
            Some(_) => Err(AppError::AlreadyExists),
            None => {
                let e = StoreEntry { name: username.clone(), data: UserData::default() };
                proof {
                    lemma_store_map_push(self.users@, e);
                    crate::model::lemma_map_values_push(
                        self.users@,
                        |x: StoreEntry| x.name@,
                        e,
                    );
                    lemma_push_no_duplicates(store_names(self.users@), username@);
                }
                self.users.push(e);
                Ok(())
            },
        }
    }

    /// Operation 1, acting side: a local user sends a friend request.  The
    /// acting node commits this local transaction first; only then does the
    /// caller push the request to the target's home node.  Fails with
    /// `NotFound` when the username has no record here, with `DuplicateId`
    /// when the id is already pending on it; on failure nothing changes.
    pub fn send_friend_request(&mut self, username: &String, req: FriendRequest) -> (r: Result<
        (),
        AppError,
    >)
        requires
            old(self).wf(),
        ensures
            final(self).wf(),
            r is Ok <==> (old(self)@.contains_key(username@)
                && old(self)@[username@].send_friend_request_allowed(req@)),
            r is Ok ==> final(self)@ == old(self)@.insert(
                username@,
                old(self)@[username@].send_friend_request(req@),
            ),
            r is Err ==> final(self)@ == old(self)@,
            !old(self)@.contains_key(username@) ==> r == Err::<(), AppError>(AppError::NotFound),
            old(self)@.contains_key(username@) && !old(self)@[
                username@
            ].send_friend_request_allowed(req@) ==> r == Err::<(), AppError>(
                AppError::DuplicateId,
            ),
    {
        proof {
            lemma_store_map_props(self.users@);
        }
        let i = match self.find(username) {
            None => {
                return Err(AppError::NotFound);
            },
            Some(i) => i,
        };
        let entry = self.users.remove(i);
        let StoreEntry { name, mut data } = entry;
        let r = data.send_friend_request(req);
        self.users.insert(i, StoreEntry { name, data });
        proof {
            let s = old(self).users@;
            let s2 = self.users@;
            assert(s2 =~= s.update(i as int, s2[i as int]));
            lemma_store_map_update(s, s2, i as int);
            if r is Err {
                assert(store_map(s).insert(s[i as int].name@, s2[i as int].data@)
                    =~= store_map(s));
            }
        }
        r
    }

    /// Operation 1, receiving side: a remote node delivers a friend request
    /// addressed to a local user.  Fails with `NotFound` when the username
    /// has no record here, with `DuplicateId` when the id is already
    /// pending on it; on failure nothing changes.
    pub fn receive_friend_request(&mut self, username: &String, req: FriendRequest) -> (r: Result<
        (),
        AppError,
    >)
        requires
            old(self).wf(),
        ensures
            final(self).wf(),
            r is Ok <==> (old(self)@.contains_key(username@)
                && old(self)@[username@].send_friend_request_allowed(req@)),
            r is Ok ==> final(self)@ == old(self)@.insert(
                username@,
                old(self)@[username@].receive_friend_request(req@),
            ),
            r is Err ==> final(self)@ == old(self)@,
            !old(self)@.contains_key(username@) ==> r == Err::<(), AppError>(AppError::NotFound),
            old(self)@.contains_key(username@) && !old(self)@[
                username@
            ].send_friend_request_allowed(req@) ==> r == Err::<(), AppError>(
                AppError::DuplicateId,
            ),
    {
        proof {
            lemma_store_map_props(self.users@);
        }
        let i = match self.find(username) {
            None => {
                return Err(AppError::NotFound);
            },
            Some(i) => i,
        };
        let entry = self.users.remove(i);
        let StoreEntry { name, mut data } = entry;
        let r = data.receive_friend_request(req);
        self.users.insert(i, StoreEntry { name, data });
        proof {
            let s = old(self).users@;
            let s2 = self.users@;
            assert(s2 =~= s.update(i as int, s2[i as int]));
            lemma_store_map_update(s, s2, i as int);
            if r is Err {
                assert(store_map(s).insert(s[i as int].name@, s2[i as int].data@)
                    =~= store_map(s));
            }
        }
        r
    }

    /// Operation 2, acting side: a local user accepts a received friend
    /// request.  On success the request is gone from this record, its
    /// sender is in the user's friends, and the sender's identity (the
    /// party whose home node is to be notified) is returned.  Fails with
    /// `NotFound`, changing nothing, when the username has no record here
    /// or the id is not pending on its receiving side.
    pub fn accept_friend_request(&mut self, username: &String, uuid: &FriendRequestUuid) -> (r:
        Result<Username, AppError>)
        requires
            old(self).wf(),
        ensures
            final(self).wf(),
            r is Ok <==> (old(self)@.contains_key(username@)
                && old(self)@[username@].accept_friend_request_allowed(uuid@)),
            r matches Ok(u) ==> u@ == lookup_fr(
                old(self)@[username@].friend_requests,
                uuid@,
            ).unwrap().from && final(self)@ == old(self)@.insert(
                username@,
                old(self)@[username@].accept_friend_request(uuid@),
            ),
            r is Err ==> final(self)@ == old(self)@ && r == Err::<Username, AppError>(
                AppError::NotFound,
            ),
    {
        proof {
            lemma_store_map_props(self.users@);
        }
        let i = match self.find(username) {
            None => {
                return Err(AppError::NotFound);
            },
            Some(i) => i,
        };
        let entry = self.users.remove(i);
        let StoreEntry { name, mut data } = entry;
        let r = data.accept_friend_request(uuid);
        self.users.insert(i, StoreEntry { name, data });
        proof {
            let s = old(self).users@;
            let s2 = self.users@;
            assert(s2 =~= s.update(i as int, s2[i as int]));
            lemma_store_map_update(s, s2, i as int);
            if r is Err {
                assert(store_map(s).insert(s[i as int].name@, s2[i as int].data@)
                    =~= store_map(s));
            }
        }
        r
    }

    /// Operation 2, counterpart side: the original sender's node learns
    /// that its request was accepted.  The request leaves this record and
    /// its target joins the user's friends.  Fails with `NotFound`,
    /// changing nothing, when the username has no record here or the id is
    /// not pending on its sending side.
    pub fn receive_accept(&mut self, username: &String, uuid: &FriendRequestUuid) -> (r: Result<
        (),
        AppError,
    >)
        requires
            old(self).wf(),
        ensures
            final(self).wf(),
            r is Ok <==> (old(self)@.contains_key(username@)
                && old(self)@[username@].receive_accept_allowed(uuid@)),
            r is Ok ==> final(self)@ == old(self)@.insert(
                username@,
                old(self)@[username@].receive_accept(uuid@),
            ),
            r is Err ==> final(self)@ == old(self)@ && r == Err::<(), AppError>(
                AppError::NotFound,
            ),
    {
        proof {
            lemma_store_map_props(self.users@);
        }
        let i = match self.find(username) {
            None => {
                return Err(AppError::NotFound);
            },
            Some(i) => i,
        };
        let entry = self.users.remove(i);
        let StoreEntry { name, mut data } = entry;
        let r = data.receive_accept(uuid);
        self.users.insert(i, StoreEntry { name, data });
        proof {
            let s = old(self).users@;
            let s2 = self.users@;
            assert(s2 =~= s.update(i as int, s2[i as int]));
            lemma_store_map_update(s, s2, i as int);
            if r is Err {
                assert(store_map(s).insert(s[i as int].name@, s2[i as int].data@)
                    =~= store_map(s));
            }
        }
        r
    }

    /// Operation 3, acting side: a local user denies a received friend
    /// request.  The request is dropped, no friendship is recorded, and the
    /// sender's identity (the party to notify) is returned.  Fails with
    /// `NotFound`, changing nothing, when the username has no record here
    /// or the id is not pending on its receiving side.
    pub fn deny_friend_request(&mut self, username: &String, uuid: &FriendRequestUuid) -> (r:
        Result<Username, AppError>)
        requires
            old(self).wf(),
        ensures
            final(self).wf(),
            r is Ok <==> (old(self)@.contains_key(username@)
                && old(self)@[username@].accept_friend_request_allowed(uuid@)),
            r matches Ok(u) ==> u@ == lookup_fr(
                old(self)@[username@].friend_requests,
                uuid@,
            ).unwrap().from && final(self)@ == old(self)@.insert(
                username@,
                old(self)@[username@].deny_friend_request(uuid@),
            ),
            r is Err ==> final(self)@ == old(self)@ && r == Err::<Username, AppError>(
                AppError::NotFound,
            ),
    {
        proof {
            lemma_store_map_props(self.users@);
        }
        let i = match self.find(username) {
            None => {
                return Err(AppError::NotFound);
            },
            Some(i) => i,
        };
        let entry = self.users.remove(i);
        let StoreEntry { name, mut data } = entry;
        let r = data.deny_friend_request(uuid);
        self.users.insert(i, StoreEntry { name, data });
        proof {
            let s = old(self).users@;
            let s2 = self.users@;
            assert(s2 =~= s.update(i as int, s2[i as int]));
            lemma_store_map_update(s, s2, i as int);
            if r is Err {
                assert(store_map(s).insert(s[i as int].name@, s2[i as int].data@)
                    =~= store_map(s));
            }
        }
        r
    }

    /// Operation 3, counterpart side: the original sender's node learns
    /// that its request was denied.  The request leaves this record and no
    /// friendship is recorded.  Fails with `NotFound`, changing nothing,
    /// when the username has no record here or the id is not pending on its
    /// sending side.
    pub fn receive_deny(&mut self, username: &String, uuid: &FriendRequestUuid) -> (r: Result<
        (),
        AppError,
    >)
        requires
            old(self).wf(),
        ensures
            final(self).wf(),
            r is Ok <==> (old(self)@.contains_key(username@)
                && old(self)@[username@].receive_accept_allowed(uuid@)),
            r is Ok ==> final(self)@ == old(self)@.insert(
                username@,
                old(self)@[username@].receive_deny(uuid@),
            ),
            r is Err ==> final(self)@ == old(self)@ && r == Err::<(), AppError>(
                AppError::NotFound,
            ),
    {
        proof {
            lemma_store_map_props(self.users@);
        }
        let i = match self.find(username) {
            None => {
                return Err(AppError::NotFound);
            },
            Some(i) => i,
        };
        let entry = self.users.remove(i);
        let StoreEntry { name, mut data } = entry;
        let r = data.receive_deny(uuid);
        self.users.insert(i, StoreEntry { name, data });
        proof {
            let s = old(self).users@;
            let s2 = self.users@;
            assert(s2 =~= s.update(i as int, s2[i as int]));
            lemma_store_map_update(s, s2, i as int);
            if r is Err {
                assert(store_map(s).insert(s[i as int].name@, s2[i as int].data@)
                    =~= store_map(s));
            }
        }
        r
    }

    /// Operation 4, both sides: every occurrence of `target` leaves the
    /// user's friend list (on the acting node `target` is the unfriended
    /// party; on its home node, run with the acting party).  Fails with
    /// `NotFound`, changing nothing, only when the username has no record
    /// here.
    pub fn unfriend(&mut self, username: &String, target: &Username) -> (r: Result<(), AppError>)
        requires
            old(self).wf(),
        ensures
            final(self).wf(),
            r is Ok <==> old(self)@.contains_key(username@),
            r is Ok ==> final(self)@ == old(self)@.insert(
                username@,
                old(self)@[username@].unfriend(target@),
            ),
            r is Err ==> final(self)@ == old(self)@ && r == Err::<(), AppError>(
                AppError::NotFound,
            ),
    {
        proof {
            lemma_store_map_props(self.users@);
        }
        let i = match self.find(username) {
            None => {
                return Err(AppError::NotFound);
            },
            Some(i) => i,
        };
        let entry = self.users.remove(i);
        let StoreEntry { name, mut data } = entry;
        data.unfriend(target);
        self.users.insert(i, StoreEntry { name, data });
        proof {
            let s = old(self).users@;
            let s2 = self.users@;
            assert(s2 =~= s.update(i as int, s2[i as int]));
            lemma_store_map_update(s, s2, i as int);
        }
        Ok(())
    }

    /// Invite counterpart of operation 1, acting side: a local user sends
    /// an invite.  Fails with `NotFound` when the username has no record
    /// here, with `DuplicateId` when the id is already pending on it; on
    /// failure nothing changes.
    pub fn send_invite(&mut self, username: &String, inv: Invite) -> (r: Result<(), AppError>)
        requires
            old(self).wf(),
        ensures
            final(self).wf(),
            r is Ok <==> (old(self)@.contains_key(username@)
                && old(self)@[username@].send_invite_allowed(inv@)),
            r is Ok ==> final(self)@ == old(self)@.insert(
                username@,
                old(self)@[username@].send_invite(inv@),
            ),
            r is Err ==> final(self)@ == old(self)@,
            !old(self)@.contains_key(username@) ==> r == Err::<(), AppError>(AppError::NotFound),
            old(self)@.contains_key(username@) && !old(self)@[username@].send_invite_allowed(
                inv@,
            ) ==> r == Err::<(), AppError>(AppError::DuplicateId),
    {
        proof {
            lemma_store_map_props(self.users@);
        }
        let i = match self.find(username) {
            None => {
                return Err(AppError::NotFound);
            },
            Some(i) => i,
        };
        let entry = self.users.remove(i);
        let StoreEntry { name, mut data } = entry;
        let r = data.send_invite(inv);
        self.users.insert(i, StoreEntry { name, data });
        proof {
            let s = old(self).users@;
            let s2 = self.users@;
            assert(s2 =~= s.update(i as int, s2[i as int]));
            lemma_store_map_update(s, s2, i as int);
            if r is Err {
                assert(store_map(s).insert(s[i as int].name@, s2[i as int].data@)
                    =~= store_map(s));
            }
        }
        r
    }

    /// Invite counterpart of operation 1, receiving side: a remote node
    /// delivers an invite addressed to a local user.  Fails with `NotFound`
    /// when the username has no record here, with `DuplicateId` when the id
    /// is already pending on it; on failure nothing changes.
    pub fn receive_invite(&mut self, username: &String, inv: Invite) -> (r: Result<(), AppError>)
        requires
            old(self).wf(),
        ensures
            final(self).wf(),
            r is Ok <==> (old(self)@.contains_key(username@)
                && old(self)@[username@].send_invite_allowed(inv@)),
            r is Ok ==> final(self)@ == old(self)@.insert(
                username@,
                old(self)@[username@].receive_invite(inv@),
            ),
            r is Err ==> final(self)@ == old(self)@,
            !old(self)@.contains_key(username@) ==> r == Err::<(), AppError>(AppError::NotFound),
            old(self)@.contains_key(username@) && !old(self)@[username@].send_invite_allowed(
                inv@,
            ) ==> r == Err::<(), AppError>(AppError::DuplicateId),
    {
        proof {
            lemma_store_map_props(self.users@);
        }
        let i = match self.find(username) {
            None => {
                return Err(AppError::NotFound);
            },
            Some(i) => i,
        };
        let entry = self.users.remove(i);
        let StoreEntry { name, mut data } = entry;
        let r = data.receive_invite(inv);
        self.users.insert(i, StoreEntry { name, data });
        proof {
            let s = old(self).users@;
            let s2 = self.users@;
            assert(s2 =~= s.update(i as int, s2[i as int]));
            lemma_store_map_update(s, s2, i as int);
            if r is Err {
                assert(store_map(s).insert(s[i as int].name@, s2[i as int].data@)
                    =~= store_map(s));
            }
        }
        r
    }

    /// Invite removal, acting side: the pending invite leaves this record
    /// and the invite's other endpoint (the party whose home node is to be
    /// notified) is returned.  Fails with `NotFound`, changing nothing,
    /// when the username has no record here or the id is not pending on it.
    pub fn remove_invite(&mut self, username: &String, uuid: &InviteUuid) -> (r: Result<
        Username,
        AppError,
    >)
        requires
            old(self).wf(),
        ensures
            final(self).wf(),
            r is Ok <==> (old(self)@.contains_key(username@)
                && old(self)@[username@].remove_invite_allowed(uuid@)),
            r matches Ok(u) ==> u@ == old(self)@[username@].invite_peer(uuid@) && final(self)@
                == old(self)@.insert(username@, old(self)@[username@].remove_invite(uuid@)),
            r is Err ==> final(self)@ == old(self)@ && r == Err::<Username, AppError>(
                AppError::NotFound,
            ),
    {
        proof {
            lemma_store_map_props(self.users@);
        }
        let i = match self.find(username) {
            None => {
                return Err(AppError::NotFound);
            },
            Some(i) => i,
        };
        let entry = self.users.remove(i);
        let StoreEntry { name, mut data } = entry;
        let r = data.remove_invite(uuid);
        self.users.insert(i, StoreEntry { name, data });
        proof {
            let s = old(self).users@;
            let s2 = self.users@;
            assert(s2 =~= s.update(i as int, s2[i as int]));
            lemma_store_map_update(s, s2, i as int);
            if r is Err {
                assert(store_map(s).insert(s[i as int].name@, s2[i as int].data@)
                    =~= store_map(s));
            }
        }
        r
    }

    /// Invite removal, counterpart side: a remote node reports that the
    /// invite was removed.  The invite leaves this record if it is still
    /// pending; a replayed notice changes nothing.  Fails with `NotFound`,
    /// changing nothing, only when the username has no record here.
    pub fn receive_remove_invite(&mut self, username: &String, uuid: &InviteUuid) -> (r: Result<
        (),
        AppError,
    >)
        requires
            old(self).wf(),
        ensures
            final(self).wf(),
            r is Ok <==> old(self)@.contains_key(username@),
            r is Ok ==> final(self)@ == old(self)@.insert(
                username@,
                old(self)@[username@].remove_invite(uuid@),
            ),
            r is Err ==> final(self)@ == old(self)@ && r == Err::<(), AppError>(
                AppError::NotFound,
            ),
    {
        proof {
            lemma_store_map_props(self.users@);
        }
        let i = match self.find(username) {
            None => {
                return Err(AppError::NotFound);
            },
            Some(i) => i,
        };
        let entry = self.users.remove(i);
        let StoreEntry { name, mut data } = entry;
        data.receive_remove_invite(uuid);
        self.users.insert(i, StoreEntry { name, data });
        proof {
            let s = old(self).users@;
            let s2 = self.users@;
            assert(s2 =~= s.update(i as int, s2[i as int]));
            lemma_store_map_update(s, s2, i as int);
        }
        Ok(())
    }

    /// The record of a locally-hosted username.  Fails with `NotFound` when
    /// no record exists.
    pub fn get_user(&self, username: &String) -> (r: Result<&UserData, AppError>)
        requires
            self.wf(),
        ensures
            match r {
                Ok(d) => self@.contains_key(username@) && d@ == self@[username@] && d@.wf(),
                Err(e) => !self@.contains_key(username@) && e == AppError::NotFound,
            },
    {
        proof {
            lemma_store_map_props(self.users@);
        }
        match self.find(username) {
            None => Err(AppError::NotFound),
            Some(i) => Ok(&self.users[i].data),
        }
    }

    /// A local user's friend list.  Fails with `NotFound` when the
    /// username has no record here.
    pub fn get_friends(&self, username: &String) -> (r: Result<&Vec<Username>, AppError>)
        requires
            self.wf(),
        ensures
            match r {
                Ok(f) => self@.contains_key(username@) && views(f@) == self@[username@].friends,
                Err(e) => !self@.contains_key(username@) && e == AppError::NotFound,
            },
    {
        proof {
            lemma_store_map_props(self.users@);
        }
        match self.find(username) {
            None => Err(AppError::NotFound),
            Some(i) => Ok(&self.users[i].data.friends),
        }
    }

    /// The ids of a local user's pending sent friend requests.  Fails with
    /// `NotFound` when the username has no record here.
    pub fn get_sent_friend_requests(&self, username: &String) -> (r: Result<
        &Vec<FriendRequestUuid>,
        AppError,
    >)
        requires
            self.wf(),
        ensures
            match r {
                Ok(f) => self@.contains_key(username@) && views(f@) == self@[
                    username@
                ].sent_friend_requests,
                Err(e) => !self@.contains_key(username@) && e == AppError::NotFound,
            },
    {
        proof {
            lemma_store_map_props(self.users@);
        }
        match self.find(username) {
            None => Err(AppError::NotFound),
            Some(i) => Ok(&self.users[i].data.sent_friend_requests),
        }
    }

    /// The ids of a local user's pending received friend requests.  Fails
    /// with `NotFound` when the username has no record here.
    pub fn get_rec_friend_requests(&self, username: &String) -> (r: Result<
        &Vec<FriendRequestUuid>,
        AppError,
    >)
        requires
            self.wf(),
        ensures
            match r {
                Ok(f) => self@.contains_key(username@) && views(f@) == self@[
                    username@
                ].rec_friend_requests,
                Err(e) => !self@.contains_key(username@) && e == AppError::NotFound,
            },
    {
        proof {
            lemma_store_map_props(self.users@);
        }
        match self.find(username) {
            None => Err(AppError::NotFound),
            Some(i) => Ok(&self.users[i].data.rec_friend_requests),
        }
    }

    /// The ids of a local user's pending sent invites.  Fails with
    /// `NotFound` when the username has no record here.
    pub fn get_sent_invites(&self, username: &String) -> (r: Result<&Vec<InviteUuid>, AppError>)
        requires
            self.wf(),
        ensures
            match r {
                Ok(f) => self@.contains_key(username@) && views(f@) == self@[
                    username@
                ].sent_invites,
                Err(e) => !self@.contains_key(username@) && e == AppError::NotFound,
            },
    {
        proof {
            lemma_store_map_props(self.users@);
        }
        match self.find(username) {
            None => Err(AppError::NotFound),
            Some(i) => Ok(&self.users[i].data.sent_invites),
        }
    }

    /// The ids of a local user's pending received invites.  Fails with
    /// `NotFound` when the username has no record here.
    pub fn get_rec_invites(&self, username: &String) -> (r: Result<&Vec<InviteUuid>, AppError>)
        requires
            self.wf(),
        ensures
            match r {
                Ok(f) => self@.contains_key(username@) && views(f@) == self@[
                    username@
                ].rec_invites,
                Err(e) => !self@.contains_key(username@) && e == AppError::NotFound,
            },
    {
        proof {
            lemma_store_map_props(self.users@);
        }
        match self.find(username) {
            None => Err(AppError::NotFound),
            Some(i) => Ok(&self.users[i].data.rec_invites),
        }
    }

    /// The detail of a pending friend request of a local user.  Fails with
    /// `NotFound` when the username has no record here or the id is not
    /// pending on it.
    pub fn get_friend_request(&self, username: &String, uuid: &FriendRequestUuid) -> (r: Result<
        &FriendRequest,
        AppError,
    >)
        requires
            self.wf(),
        ensures
            match r {
                Ok(q) => self@.contains_key(username@) && lookup_fr(
                    self@[username@].friend_requests,
                    uuid@,
                ) == Some(q@),
                Err(e) => e == AppError::NotFound && (!self@.contains_key(username@)
                    || lookup_fr(self@[username@].friend_requests, uuid@) is None),
            },
    {
        proof {
            lemma_store_map_props(self.users@);
        }
        let i = match self.find(username) {
            None => {
                return Err(AppError::NotFound);
            },
            Some(i) => i,
        };
        match self.users[i].data.get_friend_request(uuid) {
            None => Err(AppError::NotFound),
            Some(q) => Ok(q),
        }
    }

    /// The detail of a pending invite of a local user.  Fails with
    /// `NotFound` when the username has no record here or the id is not
    /// pending on it.
    pub fn get_invite(&self, username: &String, uuid: &InviteUuid) -> (r: Result<
        &Invite,
        AppError,
    >)
        requires
            self.wf(),
        ensures
            match r {
                Ok(v) => self@.contains_key(username@) && lookup_inv(
                    self@[username@].invites,
                    uuid@,
                ) == Some(v@),
                Err(e) => e == AppError::NotFound && (!self@.contains_key(username@)
                    || lookup_inv(self@[username@].invites, uuid@) is None),
            },
    {
        proof {
            lemma_store_map_props(self.users@);
        }
        let i = match self.find(username) {
            None => {
                return Err(AppError::NotFound);
            },
            Some(i) => i,
        };
        match self.users[i].data.get_invite(uuid) {
            None => Err(AppError::NotFound),
            Some(v) => Ok(v),
        }
    }
}

} // verus!
