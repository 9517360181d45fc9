use nexus::errors::AppError;
use nexus::identity::Username;
use nexus::messages::{FriendRequest, FriendRequestUuid, Invite, InviteUuid};
use nexus::store::Store;

fn uname(s: &str) -> Username {
    Username::from(s).unwrap()
}

fn request(from: &str, to: &str, id: &str) -> FriendRequest {
    FriendRequest { from: uname(from), to: uname(to), uuid: FriendRequestUuid(id.to_string()) }
}

fn invite(from: &str, to: &str, id: &str) -> Invite {
    Invite { from: uname(from), to: uname(to), uuid: InviteUuid(id.to_string()) }
}

#[test]
fn register_creates_an_empty_record() {
    let mut store = Store::new();
    let alice = "alice".to_string();
    assert!(store.register(&alice).is_ok());
    let d = store.get_user(&alice).unwrap();
    assert_eq!(d.friends.len(), 0);
    assert_eq!(d.sent_friend_requests.len(), 0);
    assert_eq!(d.rec_friend_requests.len(), 0);
    assert_eq!(d.friend_requests.len(), 0);
    assert_eq!(d.invites.len(), 0);
    assert_eq!(d.sent_invites.len(), 0);
    assert_eq!(d.rec_invites.len(), 0);
}

#[test]
fn register_refuses_an_existing_username() {
    let mut store = Store::new();
    let alice = "alice".to_string();
    assert!(store.register(&alice).is_ok());
    assert!(matches!(store.register(&alice), Err(AppError::AlreadyExists)));
}

#[test]
fn get_user_fails_for_an_unknown_username() {
    let store = Store::new();
    assert!(matches!(store.get_user(&"ghost".to_string()), Err(AppError::NotFound)));
}

#[test]
fn operations_on_an_unknown_username_fail_not_found() {
    let mut store = Store::new();
    let ghost = "ghost".to_string();
    let req = request("ghost.x:1", "bob.y:2", "r1");
    assert!(matches!(store.send_friend_request(&ghost, req), Err(AppError::NotFound)));
    let id = FriendRequestUuid("r1".to_string());
    assert!(matches!(store.accept_friend_request(&ghost, &id), Err(AppError::NotFound)));
    assert!(matches!(store.deny_friend_request(&ghost, &id), Err(AppError::NotFound)));
    assert!(matches!(store.unfriend(&ghost, &uname("bob.y:2")), Err(AppError::NotFound)));
    assert!(matches!(store.get_friends(&ghost), Err(AppError::NotFound)));
}

#[test]
fn duplicate_friend_request_id_is_rejected() {
    let mut store = Store::new();
    let alice = "alice".to_string();
    store.register(&alice).unwrap();
    let first = request("alice.x:1", "bob.y:2", "r1");
    let second = request("alice.x:1", "carol.z:3", "r1");
    assert!(store.send_friend_request(&alice, first).is_ok());
    assert!(matches!(store.send_friend_request(&alice, second), Err(AppError::DuplicateId)));
    // the failed send left the record as it was
    let d = store.get_user(&alice).unwrap();
    assert_eq!(d.sent_friend_requests.len(), 1);
    assert_eq!(d.friend_requests.len(), 1);
    assert_eq!(d.friend_requests[0].to.username, "bob");
}

#[test]
fn accept_needs_the_receiving_side() {
    let mut store = Store::new();
    let alice = "alice".to_string();
    store.register(&alice).unwrap();
    store.send_friend_request(&alice, request("alice.x:1", "bob.y:2", "r1")).unwrap();
    // alice holds r1 on the sending side only, so she cannot accept it
    let id = FriendRequestUuid("r1".to_string());
    assert!(matches!(store.accept_friend_request(&alice, &id), Err(AppError::NotFound)));
}

#[test]
fn accept_of_an_unknown_id_fails_not_found() {
    let mut store = Store::new();
    let bob = "bob".to_string();
    store.register(&bob).unwrap();
    let id = FriendRequestUuid("never-sent".to_string());
    assert!(matches!(store.accept_friend_request(&bob, &id), Err(AppError::NotFound)));
    assert!(matches!(store.deny_friend_request(&bob, &id), Err(AppError::NotFound)));
}

#[test]
fn get_friend_request_returns_the_stored_detail() {
    let mut store = Store::new();
    let bob = "bob".to_string();
    store.register(&bob).unwrap();
    store.receive_friend_request(&bob, request("alice.x:1", "bob.y:2", "r1")).unwrap();
    let id = FriendRequestUuid("r1".to_string());
    let q = store.get_friend_request(&bob, &id).unwrap();
    assert_eq!(q.from.username, "alice");
    assert_eq!(q.from.website, "x:1");
    assert_eq!(q.to.username, "bob");
    assert_eq!(q.uuid.0, "r1");
    let missing = FriendRequestUuid("r2".to_string());
    assert!(matches!(store.get_friend_request(&bob, &missing), Err(AppError::NotFound)));
}

#[test]
fn isolation_two_acting_users_on_one_node() {
    // Two different acting users on the same node: each send lands only in
    // its own record, whatever the order of the two transactions.
    let mut store = Store::new();
    let alice = "alice".to_string();
    let carol = "carol".to_string();
    store.register(&alice).unwrap();
    store.register(&carol).unwrap();
    store.send_friend_request(&alice, request("alice.x:1", "bob.y:2", "ra")).unwrap();
    store.send_friend_request(&carol, request("carol.x:1", "bob.y:2", "rc")).unwrap();
    let a = store.get_user(&alice).unwrap();
    assert_eq!(a.sent_friend_requests.len(), 1);
    assert_eq!(a.sent_friend_requests[0].0, "ra");
    assert_eq!(a.friend_requests.len(), 1);
    let c = store.get_user(&carol).unwrap();
    assert_eq!(c.sent_friend_requests.len(), 1);
    assert_eq!(c.sent_friend_requests[0].0, "rc");
    assert_eq!(c.friend_requests.len(), 1);

    // the same two sends in the other order end in the same state
    let mut store2 = Store::new();
    store2.register(&alice).unwrap();
    store2.register(&carol).unwrap();
    store2.send_friend_request(&carol, request("carol.x:1", "bob.y:2", "rc")).unwrap();
    store2.send_friend_request(&alice, request("alice.x:1", "bob.y:2", "ra")).unwrap();
    assert_eq!(store2.get_user(&alice).unwrap().sent_friend_requests[0].0, "ra");
    assert_eq!(store2.get_user(&carol).unwrap().sent_friend_requests[0].0, "rc");
}

#[test]
fn duplicate_invite_id_is_rejected() {
    let mut store = Store::new();
    let alice = "alice".to_string();
    store.register(&alice).unwrap();
    assert!(store.send_invite(&alice, invite("alice.x:1", "bob.y:2", "i1")).is_ok());
    assert!(matches!(
        store.send_invite(&alice, invite("alice.x:1", "bob.y:2", "i1")),
        Err(AppError::DuplicateId)
    ));
}

#[test]
fn remove_invite_of_an_unknown_id_fails_not_found() {
    let mut store = Store::new();
    let alice = "alice".to_string();
    store.register(&alice).unwrap();
    let id = InviteUuid("never".to_string());
    assert!(matches!(store.remove_invite(&alice, &id), Err(AppError::NotFound)));
}

#[test]
fn remove_invite_returns_the_other_endpoint() {
    let mut store = Store::new();
    let alice = "alice".to_string();
    let bob = "bob".to_string();
    store.register(&alice).unwrap();
    store.register(&bob).unwrap();
    store.send_invite(&alice, invite("alice.x:1", "bob.y:2", "i1")).unwrap();
    store.receive_invite(&bob, invite("alice.x:1", "bob.y:2", "i1")).unwrap();
    // the sender removes: the peer to notify is the target
    let peer = store.remove_invite(&alice, &InviteUuid("i1".to_string())).unwrap();
    assert_eq!(peer.username, "bob");
    assert_eq!(peer.website, "y:2");
    // the receiver removes: the peer to notify is the sender
    let peer = store.remove_invite(&bob, &InviteUuid("i1".to_string())).unwrap();
    assert_eq!(peer.username, "alice");
    assert_eq!(peer.website, "x:1");
}

#[test]
fn replayed_invite_removal_notice_is_harmless() {
    let mut store = Store::new();
    let bob = "bob".to_string();
    store.register(&bob).unwrap();
    store.receive_invite(&bob, invite("alice.x:1", "bob.y:2", "i1")).unwrap();
    let id = InviteUuid("i1".to_string());
    assert!(store.receive_remove_invite(&bob, &id).is_ok());
    assert_eq!(store.get_user(&bob).unwrap().rec_invites.len(), 0);
    // a second, replayed notice still succeeds and changes nothing
    assert!(store.receive_remove_invite(&bob, &id).is_ok());
    assert_eq!(store.get_user(&bob).unwrap().rec_invites.len(), 0);
    assert_eq!(store.get_user(&bob).unwrap().invites.len(), 0);
}

#[test]
fn unfriend_removes_every_occurrence() {
    let mut store = Store::new();
    let alice = "alice".to_string();
    store.register(&alice).unwrap();
    // two accepted cycles with the same party leave a duplicated entry
    store.receive_friend_request(&alice, request("bob.y:2", "alice.x:1", "r1")).unwrap();
    store.accept_friend_request(&alice, &FriendRequestUuid("r1".to_string())).unwrap();
    store.receive_friend_request(&alice, request("bob.y:2", "alice.x:1", "r2")).unwrap();
    store.accept_friend_request(&alice, &FriendRequestUuid("r2".to_string())).unwrap();
    assert_eq!(store.get_friends(&alice).unwrap().len(), 2);
    store.unfriend(&alice, &uname("bob.y:2")).unwrap();
    assert_eq!(store.get_friends(&alice).unwrap().len(), 0);
}
