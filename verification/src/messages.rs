use vstd::prelude::*;
use crate::identity::{Username, UsernameView};

verus! {

/// An opaque correlation id for a friend request, unique per request and
/// supplied by the initiator (for instance a random token).  It is the
/// sole key used to look a pending request up.
#[derive(Debug)]
pub struct FriendRequestUuid(pub String);

impl View for FriendRequestUuid {
    type V = Seq<char>;

    open spec fn view(&self) -> Seq<char> {
        self.0@
    }
}

impl Clone for FriendRequestUuid {
    fn clone(&self) -> (r: Self)
        ensures
            r == *self,
    {
        FriendRequestUuid(self.0.clone())
    }
}

/// An opaque correlation id for an invite, with the same role as
/// [`FriendRequestUuid`].
#[derive(Debug)]
pub struct InviteUuid(pub String);

impl View for InviteUuid {
    type V = Seq<char>;

    open spec fn view(&self) -> Seq<char> {
        self.0@
    }
}

impl Clone for InviteUuid {
    fn clone(&self) -> (r: Self)
        ensures
            r == *self,
    {
        InviteUuid(self.0.clone())
    }
}

/// The mathematical content of a [`FriendRequest`].
pub ghost struct FriendRequestView {
    pub from: UsernameView,
    pub to: UsernameView,
    pub uuid: Seq<char>,
}

/// A friend request from one identity to another, keyed by its uuid.
#[derive(Debug)]
pub struct FriendRequest {
    pub from: Username,
    pub to: Username,
    pub uuid: FriendRequestUuid,
}

impl View for FriendRequest {
    type V = FriendRequestView;

    open spec fn view(&self) -> FriendRequestView {
        FriendRequestView { from: self.from@, to: self.to@, uuid: self.uuid@ }
    }
}

impl Clone for FriendRequest {
    fn clone(&self) -> (r: Self)
        ensures
            r == *self,
    {
        FriendRequest { from: self.from.clone(), to: self.to.clone(), uuid: self.uuid.clone() }
    }
}

/// The mathematical content of an [`Invite`].
pub ghost struct InviteView {
    pub from: UsernameView,
    pub to: UsernameView,
    pub uuid: Seq<char>,
}

/// An invite from one identity to another, keyed by its uuid.  It has the
/// same shape as a friend request under a distinct tag; what the invite is
/// for (say a joinable session) is the caller's business to act on before
/// the invite is removed.
#[derive(Debug)]
pub struct Invite {
    pub from: Username,
    pub to: Username,
    pub uuid: InviteUuid,
}

impl View for Invite {
    type V = InviteView;

    open spec fn view(&self) -> InviteView {
        InviteView { from: self.from@, to: self.to@, uuid: self.uuid@ }
    }
}

impl Clone for Invite {
    fn clone(&self) -> (r: Self)
        ensures
            r == *self,
    {
        Invite { from: self.from.clone(), to: self.to.clone(), uuid: self.uuid.clone() }
    }
}

/// The mathematical content of an [`UnfriendRequest`].
pub ghost struct UnfriendRequestView {
    pub from: UsernameView,
    pub to: UsernameView,
}

/// An unfriend notice: `from` removes `to`, and asks `to`'s home node to
/// remove `from` in turn.
#[derive(Debug)]
pub struct UnfriendRequest {
    pub from: Username,
    pub to: Username,
}

impl View for UnfriendRequest {
    type V = UnfriendRequestView;

    open spec fn view(&self) -> UnfriendRequestView {
        UnfriendRequestView { from: self.from@, to: self.to@ }
    }
}

impl Clone for UnfriendRequest {
    fn clone(&self) -> (r: Self)
        ensures
            r == *self,
    {
        UnfriendRequest { from: self.from.clone(), to: self.to.clone() }
    }
}

} // verus!
