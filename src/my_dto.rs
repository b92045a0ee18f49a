use vstd::prelude::*;

verus! {

/// A sample user record, the kind of record that DTOs are derived from.
#[derive(Debug, Clone)]
pub struct User {
    pub username: String,
    pub password: String,
    pub email: Option<String>,
    pub firstname: Option<String>,
    pub lastname: Option<String>,
    pub age: u8,
}

impl Default for User {
    fn default() -> (r: User)
        ensures
            r.username@.len() == 0,
            r.password@.len() == 0,
            r.email is None,
            r.firstname is None,
            r.lastname is None,
            r.age == 0,
    {
        User {
            username: String::new(),
            password: String::new(),
            email: None,
            firstname: None,
            lastname: None,
            age: 0,
        }
    }
}

impl User {
    /// A user with the given credentials, email and age; the names are left
    /// unset.
    pub fn new(username: String, password: String, email: String, age: u8) -> (r: User)
        ensures
            r.username == username,
            r.password == password,
            r.email == Some(email),
            r.firstname is None,
            r.lastname is None,
            r.age == age,
    {
        User { username, password, email: Some(email), firstname: None, lastname: None, age }
    }
}

} // verus!
