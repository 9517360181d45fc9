//! Two-node scenarios: each test drives two independent stores, one per
//! node, through both halves of the protocol operations, in the order the
//! federation runs them (the acting node commits first, the counterpart's
//! node applies the pushed half afterwards).

use nexus::errors::AppError;
use nexus::identity::Username;
use nexus::messages::{FriendRequest, FriendRequestUuid, Invite, InviteUuid};
use nexus::store::Store;

fn uname(s: &str) -> Username {
    Username::from(s).unwrap()
}

#[test]
fn concrete_scenario_send_then_accept() {
    // Node X hosts alice, node Y hosts bob.
    let mut x = Store::new();
    let mut y = Store::new();
    let alice = "alice".to_string();
    let bob = "bob".to_string();
    x.register(&alice).unwrap();
    y.register(&bob).unwrap();

    let req = FriendRequest {
        from: uname("alice.x.example:8000"),
        to: uname("bob.y.example:9000"),
        uuid: FriendRequestUuid("r1".to_string()),
    };

    // SendFriendRequest(alice, bob, "r1")
    x.send_friend_request(&alice, req.clone()).unwrap();
    y.receive_friend_request(&bob, req).unwrap();
    assert_eq!(x.get_sent_friend_requests(&alice).unwrap().len(), 1);
    assert_eq!(x.get_sent_friend_requests(&alice).unwrap()[0].0, "r1");
    assert_eq!(y.get_rec_friend_requests(&bob).unwrap().len(), 1);
    assert_eq!(y.get_rec_friend_requests(&bob).unwrap()[0].0, "r1");

    // AcceptFriendRequest(bob, "r1")
    let id = FriendRequestUuid("r1".to_string());
    let notify = y.accept_friend_request(&bob, &id).unwrap();
    assert_eq!(notify.username, "alice");
    x.receive_accept(&alice, &id).unwrap();

    // Y: friends=[alice], received empty; X: friends=[bob], sent empty.
    let yb = y.get_friends(&bob).unwrap();
    assert_eq!(yb.len(), 1);
    assert_eq!(yb[0].username, "alice");
    assert_eq!(y.get_rec_friend_requests(&bob).unwrap().len(), 0);
    let xa = x.get_friends(&alice).unwrap();
    assert_eq!(xa.len(), 1);
    assert_eq!(xa[0].username, "bob");
    assert_eq!(x.get_sent_friend_requests(&alice).unwrap().len(), 0);
    // the detail maps are empty on both nodes too
    assert_eq!(x.get_user(&alice).unwrap().friend_requests.len(), 0);
    assert_eq!(y.get_user(&bob).unwrap().friend_requests.len(), 0);
}

#[test]
fn deny_leaves_no_trace() {
    let mut x = Store::new();
    let mut y = Store::new();
    let alice = "alice".to_string();
    let bob = "bob".to_string();
    x.register(&alice).unwrap();
    y.register(&bob).unwrap();

    let req = FriendRequest {
        from: uname("alice.x.example:8000"),
        to: uname("bob.y.example:9000"),
        uuid: FriendRequestUuid("r1".to_string()),
    };
    x.send_friend_request(&alice, req.clone()).unwrap();
    y.receive_friend_request(&bob, req).unwrap();

    let id = FriendRequestUuid("r1".to_string());
    let notify = y.deny_friend_request(&bob, &id).unwrap();
    assert_eq!(notify.username, "alice");
    x.receive_deny(&alice, &id).unwrap();

    assert_eq!(x.get_friends(&alice).unwrap().len(), 0);
    assert_eq!(y.get_friends(&bob).unwrap().len(), 0);
    assert_eq!(x.get_sent_friend_requests(&alice).unwrap().len(), 0);
    assert_eq!(y.get_rec_friend_requests(&bob).unwrap().len(), 0);
    assert_eq!(x.get_user(&alice).unwrap().friend_requests.len(), 0);
    assert_eq!(y.get_user(&bob).unwrap().friend_requests.len(), 0);
}

#[test]
fn unfriend_after_round_trip() {
    let mut x = Store::new();
    let mut y = Store::new();
    let alice = "alice".to_string();
    let bob = "bob".to_string();
    x.register(&alice).unwrap();
    y.register(&bob).unwrap();

    let a = uname("alice.x.example:8000");
    let b = uname("bob.y.example:9000");
    let req = FriendRequest { from: a.clone(), to: b.clone(), uuid: FriendRequestUuid("r1".to_string()) };
    x.send_friend_request(&alice, req.clone()).unwrap();
    y.receive_friend_request(&bob, req).unwrap();
    let id = FriendRequestUuid("r1".to_string());
    y.accept_friend_request(&bob, &id).unwrap();
    x.receive_accept(&alice, &id).unwrap();
    assert_eq!(x.get_friends(&alice).unwrap().len(), 1);
    assert_eq!(y.get_friends(&bob).unwrap().len(), 1);

    // Unfriend(alice, bob): the acting node commits, then pushes.
    x.unfriend(&alice, &b).unwrap();
    y.unfriend(&bob, &a).unwrap();
    assert_eq!(x.get_friends(&alice).unwrap().len(), 0);
    assert_eq!(y.get_friends(&bob).unwrap().len(), 0);
}

#[test]
fn invite_lifecycle_with_symmetric_removal() {
    let mut x = Store::new();
    let mut y = Store::new();
    let alice = "alice".to_string();
    let bob = "bob".to_string();
    x.register(&alice).unwrap();
    y.register(&bob).unwrap();

    let inv = Invite {
        from: uname("bob.y.example:9000"),
        to: uname("alice.x.example:8000"),
        uuid: InviteUuid("i1".to_string()),
    };
    // bob invites alice
    y.send_invite(&bob, inv.clone()).unwrap();
    x.receive_invite(&alice, inv.clone()).unwrap();
    assert_eq!(y.get_sent_invites(&bob).unwrap().len(), 1);
    assert_eq!(x.get_rec_invites(&alice).unwrap().len(), 1);
    let stored = x.get_invite(&alice, &InviteUuid("i1".to_string())).unwrap();
    assert_eq!(stored.from.username, "bob");
    assert_eq!(stored.to.username, "alice");
    assert_eq!(stored.uuid.0, "i1");

    // alice removes the invite; the removal is pushed to bob's node
    let id = InviteUuid("i1".to_string());
    let peer = x.remove_invite(&alice, &id).unwrap();
    assert_eq!(peer.username, "bob");
    y.receive_remove_invite(&bob, &id).unwrap();
    assert_eq!(x.get_rec_invites(&alice).unwrap().len(), 0);
    assert_eq!(y.get_sent_invites(&bob).unwrap().len(), 0);
    assert_eq!(x.get_user(&alice).unwrap().invites.len(), 0);
    assert_eq!(y.get_user(&bob).unwrap().invites.len(), 0);
}

#[test]
fn two_node_lifecycle() {
    // The full exchange between malek (node at localhost:8000) and lyuma
    // (node at localhost:9000): befriend, invite and remove the invite,
    // unfriend, then a denied second request.
    let mut node8000 = Store::new();
    let mut node9000 = Store::new();
    let malek_name = "malek".to_string();
    let lyuma_name = "lyuma".to_string();
    node8000.register(&malek_name).unwrap();
    node9000.register(&lyuma_name).unwrap();

    let malek = uname("malek.localhost:8000");
    let lyuma = uname("lyuma.localhost:9000");
    let fuuid = FriendRequestUuid("0".to_string());

    assert_eq!(node8000.get_friends(&malek_name).unwrap().len(), 0);

    let friend_request =
        FriendRequest { from: malek.clone(), to: lyuma.clone(), uuid: fuuid.clone() };

    node8000.send_friend_request(&malek_name, friend_request.clone()).unwrap();
    node9000.receive_friend_request(&lyuma_name, friend_request.clone()).unwrap();
    let s = node8000.get_sent_friend_requests(&malek_name).unwrap();
    assert_eq!(s.len(), 1);
    assert_eq!(s.first().unwrap().0, fuuid.0);
    let s = node9000.get_rec_friend_requests(&lyuma_name).unwrap();
    assert_eq!(s.len(), 1);
    assert_eq!(s.first().unwrap().0, fuuid.0);
    let friend_request2 =
        node9000.get_friend_request(&lyuma_name, s.first().unwrap()).unwrap();
    assert_eq!(friend_request2.from.username, friend_request.from.username);
    assert_eq!(friend_request2.from.website, friend_request.from.website);
    assert_eq!(friend_request2.to.username, friend_request.to.username);
    assert_eq!(friend_request2.to.website, friend_request.to.website);
    assert_eq!(friend_request2.uuid.0, friend_request.uuid.0);

    node9000.accept_friend_request(&lyuma_name, &fuuid).unwrap();
    node8000.receive_accept(&malek_name, &fuuid).unwrap();
    let f = node8000.get_friends(&malek_name).unwrap();
    assert_eq!(f.first().unwrap().username, lyuma.username);
    assert_eq!(f.first().unwrap().website, lyuma.website);
    let f = node9000.get_friends(&lyuma_name).unwrap();
    assert_eq!(f.first().unwrap().username, malek.username);
    assert_eq!(f.first().unwrap().website, malek.website);

    let invite_uuid = InviteUuid("1".to_string());
    let invite = Invite { from: lyuma.clone(), to: malek.clone(), uuid: invite_uuid.clone() };

    node9000.send_invite(&lyuma_name, invite.clone()).unwrap();
    node8000.receive_invite(&malek_name, invite.clone()).unwrap();

    assert_eq!(node9000.get_sent_invites(&lyuma_name).unwrap().len(), 1);
    assert_eq!(node8000.get_rec_invites(&malek_name).unwrap().len(), 1);
    let got = node8000
        .get_invite(&malek_name, node8000.get_rec_invites(&malek_name).unwrap().first().unwrap())
        .unwrap();
    assert_eq!(got.from.username, invite.from.username);
    assert_eq!(got.to.username, invite.to.username);
    assert_eq!(got.uuid.0, invite.uuid.0);

    // malek removes the invite; the removal is pushed to lyuma's node
    let peer = node8000.remove_invite(&malek_name, &invite_uuid).unwrap();
    assert_eq!(peer.username, lyuma.username);
    node9000.receive_remove_invite(&lyuma_name, &invite_uuid).unwrap();
    assert_eq!(node8000.get_rec_invites(&malek_name).unwrap().len(), 0);
    assert_eq!(node9000.get_sent_invites(&lyuma_name).unwrap().len(), 0);

    node8000.unfriend(&malek_name, &lyuma).unwrap();
    node9000.unfriend(&lyuma_name, &malek).unwrap();
    assert_eq!(node8000.get_friends(&malek_name).unwrap().len(), 0);
    assert_eq!(node9000.get_friends(&lyuma_name).unwrap().len(), 0);

    node8000.send_friend_request(&malek_name, friend_request.clone()).unwrap();
    node9000.receive_friend_request(&lyuma_name, friend_request.clone()).unwrap();
    node9000.deny_friend_request(&lyuma_name, &fuuid).unwrap();
    node8000.receive_deny(&malek_name, &fuuid).unwrap();

    assert_eq!(node8000.get_friends(&malek_name).unwrap().len(), 0);
    assert_eq!(node9000.get_friends(&lyuma_name).unwrap().len(), 0);
    assert_eq!(node8000.get_sent_friend_requests(&malek_name).unwrap().len(), 0);
    assert_eq!(node9000.get_rec_friend_requests(&lyuma_name).unwrap().len(), 0);
}

#[test]
fn failed_delivery_leaves_local_state_ahead() {
    // The acting node commits before the push; when delivery fails the
    // local record stays advanced and the peer never records the request.
    let mut x = Store::new();
    let mut y = Store::new();
    let alice = "alice".to_string();
    let bob = "bob".to_string();
    x.register(&alice).unwrap();
    y.register(&bob).unwrap();

    let req = FriendRequest {
        from: uname("alice.x.example:8000"),
        to: uname("bob.y.example:9000"),
        uuid: FriendRequestUuid("r1".to_string()),
    };
    x.send_friend_request(&alice, req).unwrap();
    // the push never reaches node Y (AppError::DeliveryFailed surfaces to
    // the acting caller); X keeps the sent entry, Y knows nothing.
    let _delivery: AppError = AppError::DeliveryFailed;
    assert_eq!(x.get_sent_friend_requests(&alice).unwrap().len(), 1);
    assert_eq!(y.get_rec_friend_requests(&bob).unwrap().len(), 0);
}
