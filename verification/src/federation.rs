//! The federation client's compute half: which endpoint of a peer node a
//! state change is pushed to, and the exact URL of that endpoint.  The
//! unverified shell serializes the payload and performs the HTTP POST; the
//! target URL it uses is pinned down here.

use vstd::prelude::*;
use crate::identity::{base_url_of, Username};

verus! {

/// The inbound endpoints a node exposes to its peers, by trust tier:
/// `public/` endpoints are for the counterpart of an in-flight
/// friend-request exchange, `friend/` endpoints for an established friend.
#[derive(Clone, Copy, Debug, PartialEq, Eq, Structural)]
pub enum Endpoint {
    PublicSendFriendRequest,
    PublicAcceptFriendRequest,
    PublicDenyFriendRequest,
    FriendUnfriend,
    FriendSendInvite,
    FriendRemoveInvite,
}

impl Endpoint {
    /// The path of the endpoint under a user's base URL.
    pub open spec fn path_spec(self) -> Seq<char> {
        match self {
            Endpoint::PublicSendFriendRequest => "/public/post/send-friend-request"@,
            Endpoint::PublicAcceptFriendRequest => "/public/post/accept-friend-request"@,
            Endpoint::PublicDenyFriendRequest => "/public/post/deny-friend-request"@,
            Endpoint::FriendUnfriend => "/friend/post/unfriend"@,
            Endpoint::FriendSendInvite => "/friend/post/send-invite"@,
            Endpoint::FriendRemoveInvite => "/friend/post/remove-invite"@,
        }
    }

    pub fn path(&self) -> (r: &'static str)
        ensures
            r@ == self.path_spec(),
    {
        match self {
            Endpoint::PublicSendFriendRequest => "/public/post/send-friend-request",
            Endpoint::PublicAcceptFriendRequest => "/public/post/accept-friend-request",
            Endpoint::PublicDenyFriendRequest => "/public/post/deny-friend-request",
            Endpoint::FriendUnfriend => "/friend/post/unfriend",
            Endpoint::FriendSendInvite => "/friend/post/send-invite",
            Endpoint::FriendRemoveInvite => "/friend/post/remove-invite",
        }
    }
}

/// The URL an outbound federation call for `target` is POSTed to: the
/// target's base URL followed by the endpoint path.
pub fn push_url(target: &Username, endpoint: Endpoint) -> (r: String)
    ensures
        r@ == base_url_of(target@) + endpoint.path_spec(),
{
    let url = target.to_url();
    url.0.concat(endpoint.path())
}

} // verus!
