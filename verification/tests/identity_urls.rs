use nexus::errors::AppError;
use nexus::federation::{push_url, Endpoint};
use nexus::identity::{Friend, Username};

fn uname(s: &str) -> Username {
    Username::from(s).unwrap()
}

#[test]
fn parse_splits_on_first_dot() {
    let u = uname("malek.localhost:8000");
    assert_eq!(u.username, "malek");
    assert_eq!(u.website, "localhost:8000");
}

#[test]
fn parse_keeps_later_dots_in_node() {
    let u = uname("alice.social.example.org:80");
    assert_eq!(u.username, "alice");
    assert_eq!(u.website, "social.example.org:80");
}

#[test]
fn parse_without_separator_is_invalid() {
    let r = Username::from("nodotanywhere");
    assert!(matches!(r, Err(AppError::InvalidIdentity)));
}

#[test]
fn parse_empty_string_is_invalid() {
    assert!(matches!(Username::from(""), Err(AppError::InvalidIdentity)));
}

#[test]
fn base_url_concatenates_scheme_node_and_user() {
    let u = uname("malek.localhost:8000");
    assert_eq!(u.to_url().0, "http://localhost:8000/malek");
}

#[test]
fn push_urls_name_the_tier_endpoints() {
    let u = uname("lyuma.localhost:9000");
    assert_eq!(
        push_url(&u, Endpoint::PublicSendFriendRequest),
        "http://localhost:9000/lyuma/public/post/send-friend-request"
    );
    assert_eq!(
        push_url(&u, Endpoint::PublicAcceptFriendRequest),
        "http://localhost:9000/lyuma/public/post/accept-friend-request"
    );
    assert_eq!(
        push_url(&u, Endpoint::PublicDenyFriendRequest),
        "http://localhost:9000/lyuma/public/post/deny-friend-request"
    );
    assert_eq!(push_url(&u, Endpoint::FriendUnfriend), "http://localhost:9000/lyuma/friend/post/unfriend");
    assert_eq!(push_url(&u, Endpoint::FriendSendInvite), "http://localhost:9000/lyuma/friend/post/send-invite");
    assert_eq!(
        push_url(&u, Endpoint::FriendRemoveInvite),
        "http://localhost:9000/lyuma/friend/post/remove-invite"
    );
}

#[test]
fn friend_display_form_splits_the_identity() {
    let u = uname("mars.localhost:8000");
    let f = Friend::of_username(&u);
    assert_eq!(f.nick, "mars");
    assert_eq!(f.username, "localhost:8000");
}

#[test]
fn error_messages_name_each_failure() {
    assert_eq!(AppError::NotFound.message(), "not found");
    assert_eq!(AppError::DuplicateId.message(), "duplicate id");
    assert_eq!(AppError::AlreadyExists.message(), "already exists");
    assert_eq!(AppError::InvalidIdentity.message(), "invalid identity");
    assert_eq!(AppError::DeliveryFailed.message(), "delivery failed");
    assert_eq!(AppError::Malformed.message(), "malformed payload");
}
