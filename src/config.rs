use vstd::prelude::*;

use crate::job::{LocatorError, UrlParts};
use crate::text::{join_strings, join_with, views};
use crate::urls::url_split;
use vstd::utf8::encode_utf8;

verus! {

/// `n` stars.
pub open spec fn stars(n: nat) -> Seq<char> {
    Seq::new(n, |i: int| '*')
}

/// `"name": "target"`
pub open spec fn alias_entry(a: (String, String)) -> Seq<char> {
    "\""@ + a.0@ + "\": \""@ + a.1@ + "\""@
}

/// The aliases in braces, `"name": "target"` each, separated by `, `.
pub open spec fn alias_text(aliases: Seq<(String, String)>) -> Seq<char> {
    "{"@ + join_with(aliases.map_values(|a: (String, String)| alias_entry(a)), ", "@) + "}"@
}

/// A profile's summary: its URL, user name, the password as one star per
/// byte of its UTF-8 form, and its aliases, one field per line.
pub open spec fn summary(url: Seq<char>, username: Seq<char>, password_bytes: nat, aliases: Seq<(String, String)>) -> Seq<char> {
    "url: "@ + url + "\nusername: "@ + username + "\npassword: "@ + stars(password_bytes)
        + "\naliases: "@ + alias_text(aliases)
}

/// Writes a profile's summary, with the password hidden.
pub fn profile_summary(url: &str, username: &str, password: &str, aliases: &Vec<(String, String)>) -> (r: String)
    ensures
        r@ == summary(url@, username@, (encode_utf8(password@).len() as usize) as nat, aliases@),
{
    let mut r = "url: ".to_owned();
    r.append(url);
    r.append("\nusername: ");
    r.append(username);
    r.append("\npassword: ");
    let n = password.len();
    let mut i: usize = 0;
    let ghost head = r@;
    while i < n
        invariant
            i <= n,
            r@ == head + stars(i as nat),
        decreases n - i,
    {
        r.append("*");
        proof {
            reveal_strlit("*");
            assert(head + stars((i + 1) as nat) =~= head + stars(i as nat) + "*"@);
        }
        i = i + 1;
    }
    let ghost head2 = r@;
    r.append("\naliases: {");
    let mut entries: Vec<String> = Vec::new();
    let mut j: usize = 0;
    while j < aliases.len()
        invariant
            j <= aliases.len(),
            views(entries@) == aliases@.subrange(0, j as int).map_values(
                |a: (String, String)| alias_entry(a),
            ),
        decreases aliases.len() - j,
    {
        let mut e = "\"".to_owned();
        e.append(aliases[j].0.as_str());
        e.append("\": \"");
        e.append(aliases[j].1.as_str());
        e.append("\"");
        proof {
            assert(views(entries@.push(e)) =~= views(entries@).push(e@));
            assert(aliases@.subrange(0, j + 1).map_values(|a: (String, String)| alias_entry(a))
                =~= aliases@.subrange(0, j as int).map_values(
                |a: (String, String)| alias_entry(a),
            ).push(alias_entry(aliases@[j as int])));
        }
        entries.push(e);
        j = j + 1;
    }
    assert(aliases@.subrange(0, aliases.len() as int) == aliases@);
    let list = join_strings(&entries, ", ");
    r.append(list.as_str());
    r.append("}");
    proof {
        reveal_strlit("\naliases: {");
        reveal_strlit("\naliases: ");
        reveal_strlit("{");
        assert("\naliases: {"@ =~= "\naliases: "@ + "{"@);
        assert(r@ =~= head2 + "\naliases: "@ + alias_text(aliases@));
        assert(head2 =~= "url: "@ + url@ + "\nusername: "@ + username@ + "\npassword: "@ + stars(n as nat));
        assert(r@ =~= summary(url@, username@, (encode_utf8(password@).len() as usize) as nat, aliases@));
    }
    r
}

/// The server and credentials of one profile.
#[derive(Debug)]
pub struct Profile {
    pub username: String,
    pub password: String,
    url: String,
    pub aliases: Vec<(String, String)>,
}

/// What a profile holds.
pub struct ProfileView {
    pub url: Seq<char>,
    pub username: Seq<char>,
    pub password: Seq<char>,
    pub aliases: Seq<(String, String)>,
}

impl View for Profile {
    type V = ProfileView;

    closed spec fn view(&self) -> ProfileView {
        ProfileView {
            url: self.url@,
            username: self.username@,
            password: self.password@,
            aliases: self.aliases@,
        }
    }
}

impl Profile {
    pub fn new(url: String, username: String, password: String, aliases: Vec<(String, String)>) -> (r: Profile)
        ensures
            r@ == (ProfileView { url: url@, username: username@, password: password@, aliases: aliases@ }),
    {
        Profile { username, password, url, aliases }
    }

    /// The server URL as configured.
    pub open spec fn url_text(&self) -> Seq<char> {
        self@.url
    }

    /// The server URL as configured, whether or not it parses.
    pub fn configured_url(&self) -> (r: &String)
        ensures
            r@ == self@.url,
    {
        &self.url
    }

    /// The server URL, if it is one.
    pub fn url(&self) -> (r: Result<String, LocatorError>)
        ensures
            match r {
                Ok(u) => u@ == self.url_text() && url_split(self.url_text()) is Some,
                Err(e) => url_split(self.url_text()) is None && e == LocatorError::InvalidUrl,
            },
    {
        let _ = UrlParts::parse(self.url.as_str())?;
        Ok(self.url.clone())
    }

    /// The profile's summary, the password hidden.
    pub fn describe(&self) -> (r: String)
        ensures
            r@ == summary(self@.url, self@.username, (encode_utf8(self@.password).len() as usize) as nat, self@.aliases),
    {
        profile_summary(self.url.as_str(), self.username.as_str(), self.password.as_str(), &self.aliases)
    }
}

/// Why no profile could be had.
#[derive(Debug, Clone, Copy, PartialEq, Eq, Structural)]
pub enum ConfigError {
    /// No profile has the selected name.
    ProfileNotFound,
}

/// The named profiles and the name of the one in use.
#[derive(Debug)]
pub struct JenkinsConfig {
    profile: String,
    profiles: Vec<(String, Profile)>,
}

impl JenkinsConfig {
    /// The name of the profile in use.
    pub closed spec fn selected(&self) -> Seq<char> {
        self.profile@
    }

    /// The named profiles, in order.
    pub closed spec fn entries(&self) -> Seq<(String, Profile)> {
        self.profiles@
    }

    /// Profiles `profiles`, with the one named `profile` in use.
    pub fn new(profile: String, profiles: Vec<(String, Profile)>) -> (r: JenkinsConfig)
        ensures
            r.selected() == profile@,
            r.entries() == profiles@,
    {
        JenkinsConfig { profile, profiles }
    }

    /// The name of the profile in use.
    pub fn selected_name(&self) -> (r: &String)
        ensures
            r@ == self.selected(),
    {
        &self.profile
    }

    /// The named profiles, in order.
    pub fn profiles(&self) -> (r: &Vec<(String, Profile)>)
        ensures
            r@ == self.entries(),
    {
        &self.profiles
    }

    /// Puts the profile named `profile` in use.
    pub fn select_profile(&mut self, profile: &str)
        ensures
            final(self).selected() == profile@,
            final(self).entries() == old(self).entries(),
    {
        self.profile = profile.to_owned();
    }

    /// The first profile with the selected name.
    pub fn profile(&self) -> (r: Result<&Profile, ConfigError>)
        ensures
            match r {
                Ok(p) => exists|i: int|
                    0 <= i < self.entries().len() && self.entries()[i].0@ == self.selected() && *p
                        == self.entries()[i].1 && forall|j: int|
                        0 <= j < i ==> self.entries()[j].0@ != self.selected(),
                Err(e) => e == ConfigError::ProfileNotFound && forall|i: int|
                    0 <= i < self.entries().len() ==> self.entries()[i].0@ != self.selected(),
            },
    {
        let mut i: usize = 0;
        while i < self.profiles.len()
            invariant
                i <= self.profiles.len(),
                forall|j: int| 0 <= j < i ==> self.profiles@[j].0@ != self.profile@,
            decreases self.profiles.len() - i,
        {
            if self.profiles[i].0 == self.profile {
                assert(self.entries()[i as int].0@ == self.selected());
                return Ok(&self.profiles[i].1);
            }
            i = i + 1;
        }
        Err(ConfigError::ProfileNotFound)
    }
}

} // verus!
