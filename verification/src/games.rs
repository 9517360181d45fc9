//! Plain data types for the session catalog an invite may refer to.  The
//! federation protocol treats an invite's payload as the caller's
//! business; these types only describe it.

use vstd::prelude::*;
use crate::identity::Url;

verus! {

/// A bare user handle, as the session catalog shows it.
#[derive(Clone, Debug)]
pub struct User(pub String);

/// A game title, together with the server that publishes its sessions.
#[derive(Clone, Debug)]
pub struct Game {
    pub id: String,
    pub publish_server: Url,
}

/// One joinable session of a game: which instance it is, what a client
/// needs in order to join, and who is in it (when known).
#[derive(Clone, Debug)]
pub struct GameInfo {
    pub game: Game,
    pub instance: String,
    pub join_info: String,
    pub players: Option<Vec<User>>,
}

} // verus!
