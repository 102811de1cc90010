use vstd::prelude::*;

use crate::auth::{
    UserToken,
    password_accepted,
    password_digest,
    salt_accepted,
    spec_argon2i,
    spec_base64,
    spec_password_digest,
};
use crate::models::User;
use crate::Secret;

verus! {

/// The login form.
pub struct Login {
    pub email: String,
    pub password: String,
}

/// Whether `password` is the one whose digest, salted with the secret, is
/// stored for `user`.
pub open spec fn spec_password_matches(password: Seq<char>, user: &User, secret: Seq<char>) -> bool {
    spec_password_digest(password, secret) == user.password@
}

/// Logs in with `login`, given `user`, the user stored under the form's
/// email (`None` when there is none): the user's token when the password
/// matches, `None` otherwise. The password is only hashed when there is a
/// user, and argon2rs then needs a usable salt and password.
pub fn authenticate(login: &Login, user: Option<&User>, secret: &Secret) -> (t: Option<UserToken>)
    requires
        user is Some ==> salt_accepted(secret.0@) && password_accepted(login.password@),
    ensures
        t is Some <==> (user is Some && spec_password_matches(login.password@, user.unwrap(), secret.0@)),
        t is Some <==> (user is Some && spec_base64(spec_argon2i(login.password@, secret.0@))
            == user.unwrap().password@),
        t matches Some(tok) ==> tok.id == user.unwrap().id && tok.name@ == user.unwrap().name@,
{
    match user {
        Some(u) => {
            let hashed = password_digest(login.password.as_str(), secret.0.as_str());
            if hashed == u.password {
                Some(UserToken { id: u.id, name: u.name.clone() })
            } else {
                None
            }
        },
        None => None,
    }
}

} // verus!
