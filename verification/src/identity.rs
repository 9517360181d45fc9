use vstd::prelude::*;
use crate::errors::AppError;

verus! {

/// The base URL of a user's home node, e.g. `http://host:port/user`.
#[derive(Debug)]
pub struct Url(pub String);

impl View for Url {
    type V = Seq<char>;

    open spec fn view(&self) -> Seq<char> {
        self.0@
    }
}

impl Clone for Url {
    fn clone(&self) -> (r: Self)
        ensures
            r == *self,
    {
        Url(self.0.clone())
    }
}

/// The mathematical content of a [`Username`]: the two character sequences
/// that make up a global identity.
pub ghost struct UsernameView {
    pub username: Seq<char>,
    pub website: Seq<char>,
}

/// A global identity `user@node`, written `user.node` in its string form:
/// the portion before the first `.` is the local username, the rest is the
/// host (with optional port) of the user's home node.  Immutable once
/// constructed.
#[derive(Debug)]
pub struct Username {
    pub username: String,
    pub website: String,
}

impl View for Username {
    type V = UsernameView;

    open spec fn view(&self) -> UsernameView {
        UsernameView { username: self.username@, website: self.website@ }
    }
}

impl Clone for Username {
    fn clone(&self) -> (r: Self)
        ensures
            r == *self,
    {
        Username { username: self.username.clone(), website: self.website.clone() }
    }
}

impl PartialEq for Username {
    fn eq(&self, other: &Username) -> (r: bool) {
        self.username == other.username && self.website == other.website
    }
}

impl vstd::std_specs::cmp::PartialEqSpecImpl for Username {
    open spec fn obeys_eq_spec() -> bool {
        true
    }

    open spec fn eq_spec(&self, other: &Username) -> bool {
        self@ == other@
    }
}

/// The base URL derived from an identity: `"http://" + node + "/" + user`.
pub open spec fn base_url_of(u: UsernameView) -> Seq<char> {
    "http://"@ + u.website + "/"@ + u.username
}

impl Username {
    /// Parses `user.node` into an identity, splitting on the first `.`.
    /// Fails with `InvalidIdentity` when the string has no separator.
    pub fn from(s: &str) -> (r: Result<Username, AppError>)
        ensures
            r is Ok <==> s@.contains('.'),
            r is Err ==> r == Err::<Username, AppError>(AppError::InvalidIdentity),
            r matches Ok(u) ==> {
                let i = s@.index_of_first('.').unwrap();
                &&& u@.username == s@.subrange(0, i)
                &&& u@.website == s@.subrange(i + 1, s@.len() as int)
            },
    {
        let len = s.unicode_len();
        let mut i: usize = 0;
        while i < len
            invariant
                len == s@.len(),
                i <= len,
                forall|j: int| 0 <= j < i ==> s@[j] != '.',
            decreases len - i,
        {
            if s.get_char(i) == '.' {
                proof {
                    lemma_first_index(s@, '.', i as int);
                }
                let username = s.substring_char(0, i).to_owned();
                let website = s.substring_char(i + 1, len).to_owned();
                return Ok(Username { username, website });
            }
            i += 1;
        }
        proof {
            assert(forall|j: int| 0 <= j < s@.len() ==> s@[j] != '.');
            assert(!s@.contains('.'));
        }
        Err(AppError::InvalidIdentity)
    }

    /// The base URL of this user's home node, as a deterministic function
    /// of the two identity fields.
    pub fn to_url(&self) -> (r: Url)
        ensures
            r@ == base_url_of(self@),
    {
        let mut s = String::from_str("http://");
        s.append(self.website.as_str());
        s.append("/");
        s.append(self.username.as_str());
        Url(s)
    }
}

/// When position `i` holds the needle and no earlier position does, `i` is
/// exactly what `index_of_first` returns.
proof fn lemma_first_index<A>(s: Seq<A>, needle: A, i: int)
    requires
        0 <= i < s.len(),
        s[i] == needle,
        forall|j: int| 0 <= j < i ==> s[j] != needle,
    ensures
        s.contains(needle),
        s.index_of_first(needle) == Some(i),
{
    assert(s.contains(needle));
    s.index_of_first_ensures(needle);
    match s.index_of_first(needle) {
        Some(k) => {
            assert(!(i < k)) by {
                if i < k {
                    assert(s[i] != needle);
                }
            }
            assert(!(k < i));
        },
        None => {},
    }
}

/// A friend as a front-end shows it: a display nick next to the node that
/// hosts the account.
#[derive(Clone, Debug, PartialEq, Eq)]
pub struct Friend {
    pub nick: String,
    pub username: String,
}

impl Friend {
    /// The display form of an identity: the local username becomes the
    /// nick, the home node becomes the qualifying suffix.
    pub fn of_username(u: &Username) -> (r: Friend)
        ensures
            r.nick@ == u@.username,
            r.username@ == u@.website,
    {
        Friend { nick: u.username.clone(), username: u.website.clone() }
    }
}

} // verus!
