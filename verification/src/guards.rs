//! Chat messages as the library sees them, and the guards that decide who
//! may run a command.
use vstd::prelude::*;
use crate::args::Args;
use crate::text::{new_string, views};

verus! {

/// A chat message: who sent it, where, its text, and the names of the
/// sender's badges (such as `broadcaster` or `moderator`).
pub struct ChatMessage {
    pub sender_login: String,
    pub sender_id: String,
    pub channel_login: String,
    pub text: String,
    pub badges: Vec<String>,
}

impl ChatMessage {
    pub open spec fn badge_names(&self) -> Seq<Seq<char>> {
        views(self.badges@)
    }
}

/// A rule on the sender of a message.
pub enum Guard {
    /// The sender wears a badge of this name.
    Badge(String),
    /// The sender's login is one of these.
    Users(Vec<String>),
    /// The sender's login is none of these.
    Blacklist(Vec<String>),
}

impl Guard {
    /// Whether a sender with this login and these badges passes the guard.
    pub open spec fn allows(&self, login: Seq<char>, badges: Seq<Seq<char>>) -> bool {
        match self {
            Guard::Badge(b) => badges.contains(b@),
            Guard::Users(ids) => views(ids@).contains(login),
            Guard::Blacklist(ids) => !views(ids@).contains(login),
        }
    }

    /// Whether the sender of `message` passes the guard; the arguments play
    /// no part.
    pub fn check(&self, message: &ChatMessage, args: &Args) -> (r: bool)
        ensures
            r == self.allows(message.sender_login@, message.badge_names()),
            self matches Guard::Badge(b) ==> (r <==> exists|i: int|
                0 <= i < message.badges@.len() && (#[trigger] message.badges@[i])@ == b@),
            self matches Guard::Users(ids) ==> (r <==> exists|i: int|
                0 <= i < ids@.len() && (#[trigger] ids@[i])@ == message.sender_login@),
            self matches Guard::Blacklist(ids) ==> (r <==> !exists|i: int|
                0 <= i < ids@.len() && (#[trigger] ids@[i])@ == message.sender_login@),
    {
        match self {
            Guard::Badge(b) => contains_string(&message.badges, b),
            Guard::Users(ids) => contains_string(ids, &message.sender_login),
            Guard::Blacklist(ids) => !contains_string(ids, &message.sender_login),
        }
    }
}

/// Whether `v` holds a string equal to `s`.
pub fn contains_string(v: &Vec<String>, s: &String) -> (r: bool)
    ensures
        r == views(v@).contains(s@),
        r <==> exists|i: int| 0 <= i < v@.len() && (#[trigger] v@[i])@ == s@,
{
    let mut i: usize = 0;
    while i < v.len()
        invariant
            i <= v@.len(),
            forall|j: int| 0 <= j < i ==> v@[j]@ != s@,
        decreases v@.len() - i,
    {
        if v[i] == *s {
            assert(views(v@)[i as int] == s@);
            assert(v@[i as int]@ == s@);
            return true;
        }
        i = i + 1;
    }
    assert forall|j: int| 0 <= j < views(v@).len() implies views(v@)[j] != s@ by {
        assert(views(v@)[j] == v@[j]@);
    }
    false
}

/// The logins, as strings.
fn login_list(ids: Vec<&'static str>) -> (r: Vec<String>)
    ensures
        views(r@) == ids@.map_values(|s: &str| s@),
{
    let mut out: Vec<String> = Vec::new();
    let mut i: usize = 0;
    while i < ids.len()
        invariant
            i <= ids@.len(),
            out@.len() == i,
            forall|j: int| 0 <= j < i ==> (#[trigger] out@[j])@ == ids@[j]@,
        decreases ids@.len() - i,
    {
        out.push(new_string(ids[i]));
        i = i + 1;
    }
    assert(views(out@) =~= ids@.map_values(|s: &str| s@));
    out
}

/// A guard that lets through the wearers of the badge `badge`.
pub fn create_guard(badge: &str) -> (r: Guard)
    ensures
        r matches Guard::Badge(b) && b@ == badge@,
{
    Guard::Badge(new_string(badge))
}

/// Lets through the channel's broadcaster.
pub fn streamer_guard() -> (r: Guard)
    ensures
        r matches Guard::Badge(b) && b@ == "broadcaster"@,
{
    create_guard("broadcaster")
}

/// Lets through Twitch admins.
pub fn admin_guard() -> (r: Guard)
    ensures
        r matches Guard::Badge(b) && b@ == "admin"@,
{
    create_guard("admin")
}

/// Lets through the channel's moderators.
pub fn mod_guard() -> (r: Guard)
    ensures
        r matches Guard::Badge(b) && b@ == "moderator"@,
{
    create_guard("moderator")
}

/// Lets through the channel's subscribers.
pub fn sub_guard() -> (r: Guard)
    ensures
        r matches Guard::Badge(b) && b@ == "subscriber"@,
{
    create_guard("subscriber")
}

/// Lets through Twitch staff.
pub fn staff_guard() -> (r: Guard)
    ensures
        r matches Guard::Badge(b) && b@ == "staff"@,
{
    create_guard("staff")
}

/// Lets through the senders whose login is one of `ids`.
pub fn user_guard(ids: Vec<&'static str>) -> (r: Guard)
    ensures
        r matches Guard::Users(v) && views(v@) == ids@.map_values(|s: &str| s@),
{
    Guard::Users(login_list(ids))
}

/// Lets through the senders whose login is none of `ids`.
pub fn blacklist_guard(ids: Vec<&'static str>) -> (r: Guard)
    ensures
        r matches Guard::Blacklist(v) && views(v@) == ids@.map_values(|s: &str| s@),
{
    Guard::Blacklist(login_list(ids))
}

} // verus!

verus! {

/// A badge guard lets a sender through exactly when one of the sender's
/// badges has its name; the sender's login plays no part.
pub proof fn lemma_badge_guard_admits_wearers(b: String, login: Seq<char>, badges: Seq<Seq<char>>)
    ensures
        Guard::Badge(b).allows(login, badges) <==> exists|i: int| 0 <= i < badges.len() && badges[i] == b@,
        forall|other: Seq<char>| #[trigger] Guard::Badge(b).allows(other, badges) == Guard::Badge(b).allows(login, badges),
{
}

/// A user-list guard lets a sender through exactly when the login is on
/// the list, and a blacklist guard exactly when it is not; badges play no
/// part.
pub proof fn lemma_login_guards(ids: Vec<String>, login: Seq<char>, badges: Seq<Seq<char>>)
    ensures
        Guard::Users(ids).allows(login, badges) <==> exists|i: int| 0 <= i < ids@.len() && ids@[i]@ == login,
        Guard::Blacklist(ids).allows(login, badges) <==> !Guard::Users(ids).allows(login, badges),
{
    if exists|i: int| 0 <= i < ids@.len() && ids@[i]@ == login {
        let i = choose|i: int| 0 <= i < ids@.len() && ids@[i]@ == login;
        assert(views(ids@)[i] == login);
    }
    if views(ids@).contains(login) {
        let i = choose|i: int| 0 <= i < views(ids@).len() && views(ids@)[i] == login;
        assert(ids@[i]@ == login);
    }
}

} // verus!
