use vstd::prelude::*;

use crate::config::{profile_summary, summary};
use vstd::utf8::encode_utf8;

verus! {

/// A single profile read on its own: server URL, credentials and aliases.
#[derive(Debug, Clone)]
pub struct Profile {
    pub username: String,
    pub password: String,
    pub url: String,
    pub aliases: Vec<(String, String)>,
}

impl Profile {
    pub fn new(url: String, username: String, password: String, aliases: Vec<(String, String)>) -> (r: Profile)
        ensures
            r.url == url,
            r.username == username,
            r.password == password,
            r.aliases == aliases,
    {
        Profile { username, password, url, aliases }
    }

    /// The profile's summary, the password hidden.
    pub fn describe(&self) -> (r: String)
        ensures
            r@ == summary(
                self.url@,
                self.username@,
                (encode_utf8(self.password@).len() as usize) as nat,
                self.aliases@,
            ),
    {
        profile_summary(self.url.as_str(), self.username.as_str(), self.password.as_str(), &self.aliases)
    }
}

} // verus!
