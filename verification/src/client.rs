//! Logging in: where the bot's login and token come from.
use vstd::prelude::*;
use crate::text::new_string;

verus! {

/// Why a chat client could not be made.
#[derive(Debug)]
pub enum NewClientError {
    Credentials,
}

impl NewClientError {
    pub fn message(&self) -> (r: String)
        ensures
            r@ == "Unable to get credentials"@,
    {
        new_string("Unable to get credentials")
    }
}

/// A source of a login and a token; an error carries a description.
pub trait Credentials {
    fn credentials(&self) -> Result<(String, String), String>;
}

/// Credentials given as they are: a login and a token.
pub struct Simple(pub String, pub String);

impl Credentials for Simple {
    fn credentials(&self) -> (r: Result<(String, String), String>)
        ensures
            r matches Ok((a, b)) && a@ == self.0@ && b@ == self.1@,
    {
        Ok((self.0.clone(), self.1.clone()))
    }
}

/// The login and token for a new client, from what a source of
/// credentials answered: any failure is reported as
/// `NewClientError::Credentials`.
pub fn client_login(answer: Result<(String, String), String>) -> (r: Result<(String, String), NewClientError>)
    ensures
        answer is Ok <==> r is Ok,
        r matches Ok(pair) ==> answer == Ok::<(String, String), String>(pair),
        r matches Err(e) ==> e == NewClientError::Credentials,
{
    match answer {
        Ok(pair) => Ok(pair),
        Err(_) => Err(NewClientError::Credentials),
    }
}

} // verus!
