//! The credentials a login form submits.

use vstd::prelude::*;

verus! {

/// Username and password handed in by the login view; the embedding
/// program decodes the submitted form into this and exchanges it for its
/// session credentials.
#[derive(Debug)]
pub struct LoginForm {
    pub username: String,
    pub password: String,
}

impl LoginForm {
    pub fn new(username: String, password: String) -> (r: LoginForm)
        ensures
            r.username@ == username@,
            r.password@ == password@,
    {
        LoginForm { username, password }
    }
}

} // verus!
