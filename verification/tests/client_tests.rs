use twitchbot::client::{client_login, Credentials, NewClientError, Simple};

#[test]
fn simple_credentials() {
    let s = Simple("bot".to_string(), "token".to_string());
    assert_eq!(s.credentials().unwrap(), ("bot".to_string(), "token".to_string()));
    assert_eq!(client_login(s.credentials()).unwrap(), ("bot".to_string(), "token".to_string()));
}

struct Broken;

impl Credentials for Broken {
    fn credentials(&self) -> Result<(String, String), String> {
        Err("no token".to_string())
    }
}

#[test]
fn failing_credentials() {
    assert!(matches!(client_login(Broken.credentials()), Err(NewClientError::Credentials)));
    assert_eq!(NewClientError::Credentials.message(), "Unable to get credentials");
}
