//! Domain entities: `UserID`, `User` and the `Nonce` that addresses a
//! staged registration before confirmation.
use vstd::prelude::*;

use crate::auth::{hash_password, verifies};
use crate::schema::id_has_no_delimiter;

verus! {

/// One-time random token addressing a not-yet-confirmed registration.
pub type Nonce = String;

/// Opaque unique identifier of a persisted user; stable once assigned.
#[derive(Debug)]
pub struct UserID(pub String);

impl View for UserID {
    type V = Seq<char>;

    open spec fn view(&self) -> Seq<char> {
        self.0@
    }
}

/// A lowercase hexadecimal digit.
pub open spec fn is_hex_digit(c: char) -> bool {
    ('0' <= c && c <= '9') || ('a' <= c && c <= 'f')
}

/// The hyphenated string form of a UUID: 36 characters, hyphens at
/// positions 8, 13, 18 and 23, lowercase hexadecimal digits elsewhere.
pub open spec fn is_uuid_string(s: Seq<char>) -> bool {
    &&& s.len() == 36
    &&& forall|i: int| i == 8 || i == 13 || i == 18 || i == 23 ==> #[trigger] s[i] == '-'
    &&& forall|i: int|
        0 <= i < 36 && i != 8 && i != 13 && i != 18 && i != 23 ==> is_hex_digit(#[trigger] s[i])
}

/// A hyphenated UUID string never holds the key delimiter.
pub proof fn lemma_uuid_string_has_no_delimiter(s: Seq<char>)
    requires
        is_uuid_string(s),
    ensures
        id_has_no_delimiter(s),
{
    assert forall|i: int| 0 <= i < s.len() implies s[i] != ':' by {
        if i != 8 && i != 13 && i != 18 && i != 23 {
            assert(is_hex_digit(s[i]));
        }
    }
}

/// Relies on `uuid::Uuid::new_v4` and its hyphenated `Display` form: a
/// fresh random version-4 UUID rendered as 36 characters of lowercase
/// hexadecimal digits with hyphens at the four fixed positions.
#[verifier::external_body]
fn fresh_uuid_string() -> (r: String)
    ensures
        is_uuid_string(r@),
{
    uuid::Uuid::new_v4().to_string()
}

impl UserID {
    /// Draws a fresh random identifier: the string form of a fresh UUID.
    pub fn new() -> (r: Self)
        ensures
            is_uuid_string(r@),
            id_has_no_delimiter(r@),
    {
        let id = fresh_uuid_string();
        proof {
            lemma_uuid_string_has_no_delimiter(id@);
        }
        UserID(id)
    }

    /// The identifier as a string slice.
    pub fn as_str(&self) -> (r: &str)
        ensures
            r@ == self@,
    {
        self.0.as_str()
    }
}

impl Clone for UserID {
    fn clone(&self) -> (r: Self)
        ensures
            r == *self,
    {
        UserID(self.0.clone())
    }
}

impl PartialEq for UserID {
    fn eq(&self, other: &Self) -> (r: bool) {
        self.0 == other.0
    }
}

impl vstd::std_specs::cmp::PartialEqSpecImpl for UserID {
    open spec fn obeys_eq_spec() -> bool {
        true
    }

    open spec fn eq_spec(&self, other: &Self) -> bool {
        self@ == other@
    }
}

impl Default for UserID {
    /// The nil identifier, in the same hyphenated form as a drawn one.
    fn default() -> (r: Self)
        ensures
            r@ == "00000000-0000-0000-0000-000000000000"@,
    {
        UserID("00000000-0000-0000-0000-000000000000".to_owned())
    }
}

impl From<String> for UserID {
    fn from(value: String) -> (r: Self) {
        UserID(value)
    }
}

impl vstd::std_specs::convert::FromSpecImpl<String> for UserID {
    open spec fn obeys_from_spec() -> bool {
        true
    }

    open spec fn from_spec(value: String) -> Self {
        UserID(value)
    }
}

/// A registered (or staged) account: identifier, unique human-chosen
/// username, and the opaque password hash produced by the hashing
/// capability.
#[derive(Debug)]
pub struct User {
    pub user_id: UserID,
    pub username: String,
    pub password_hash: String,
}

impl User {
    /// Builds a user with a fresh identifier, hashing the given password.
    pub fn new(username: String, password: String) -> (r: Self)
        requires
            password@.len() <= 0x3FFF_FFFF,
        ensures
            r.username == username,
            verifies(r.password_hash@, password@),
            is_uuid_string(r.user_id@),
            id_has_no_delimiter(r.user_id@),
    {
        let password_hash = hash_password(password.as_str());
        User { user_id: UserID::new(), username, password_hash }
    }

    /// A sample user, for demonstrations and tests.
    pub fn example() -> (r: Self)
        ensures
            r.username@ == "Peter"@,
            verifies(r.password_hash@, "asdfasdfasdf"@),
            is_uuid_string(r.user_id@),
            id_has_no_delimiter(r.user_id@),
    {
        proof {
            reveal_strlit("asdfasdfasdf");
        }
        Self::new("Peter".to_owned(), "asdfasdfasdf".to_owned())
    }
}

impl Clone for User {
    fn clone(&self) -> (r: Self)
        ensures
            r == *self,
    {
        User {
            user_id: self.user_id.clone(),
            username: self.username.clone(),
            password_hash: self.password_hash.clone(),
        }
    }
}

impl PartialEq for User {
    fn eq(&self, other: &Self) -> (r: bool) {
        self.user_id == other.user_id && self.username == other.username
            && self.password_hash == other.password_hash
    }
}

impl vstd::std_specs::cmp::PartialEqSpecImpl for User {
    open spec fn obeys_eq_spec() -> bool {
        true
    }

    open spec fn eq_spec(&self, other: &Self) -> bool {
        self.user_id@ == other.user_id@ && self.username@ == other.username@
            && self.password_hash@ == other.password_hash@
    }
}

} // verus!
