use twitchbot::args::Args;
use twitchbot::command::{Command, CommandInfo, CommandManager, IntoResult, NoResult, StringResult};
use twitchbot::guards::{
    admin_guard, blacklist_guard, create_guard, mod_guard, staff_guard, streamer_guard, sub_guard,
    user_guard, ChatMessage, Guard,
};

fn message(login: &str, badges: &[&str], text: &str) -> ChatMessage {
    ChatMessage {
        sender_login: login.to_string(),
        sender_id: "1".to_string(),
        channel_login: "chan".to_string(),
        text: text.to_string(),
        badges: badges.iter().map(|b| b.to_string()).collect(),
    }
}

fn info(name: &str, alias: &[&str]) -> CommandInfo {
    CommandInfo {
        name: name.to_string(),
        description: format!("{name} command"),
        alias: alias.iter().map(|a| a.to_string()).collect(),
    }
}

fn no_args() -> Args {
    Args::new(vec![])
}

#[test]
fn badge_guards() {
    let broadcaster = message("someone", &["broadcaster"], "");
    let moderator = message("someone", &["moderator", "subscriber"], "");
    let nobody = message("someone", &[], "");
    assert!(streamer_guard().check(&broadcaster, &no_args()));
    assert!(!streamer_guard().check(&moderator, &no_args()));
    assert!(mod_guard().check(&moderator, &no_args()));
    assert!(sub_guard().check(&moderator, &no_args()));
    assert!(!admin_guard().check(&moderator, &no_args()));
    assert!(admin_guard().check(&message("a", &["admin"], ""), &no_args()));
    assert!(staff_guard().check(&message("a", &["staff"], ""), &no_args()));
    assert!(!staff_guard().check(&nobody, &no_args()));
    assert!(create_guard("vip").check(&message("a", &["vip"], ""), &no_args()));
    assert!(matches!(create_guard("vip"), Guard::Badge(b) if b == "vip"));
}

#[test]
fn login_guards() {
    let sam = message("samwise_80", &[], "");
    let bob = message("bob", &[], "");
    assert!(user_guard(vec!["samwise_80", "x"]).check(&sam, &no_args()));
    assert!(!user_guard(vec!["samwise_80"]).check(&bob, &no_args()));
    assert!(!user_guard(vec![]).check(&bob, &no_args()));
    assert!(!blacklist_guard(vec!["samwise_80"]).check(&sam, &no_args()));
    assert!(blacklist_guard(vec!["samwise_80"]).check(&bob, &no_args()));
    assert!(blacklist_guard(vec![]).check(&bob, &no_args()));
}

#[test]
fn dispatch_by_name_and_alias() {
    let mut m = CommandManager::new(">");
    let hug = m.add_command(info("Hug", &["Cuddle", "h"]), vec![]);
    let kiss = m.add_command(info("kiss", &[]), vec![]);
    assert_eq!(hug, 0);
    assert_eq!(kiss, 1);

    let (id, mut args) = m.on(&message("bob", &[], ">hug  alice  ")).unwrap();
    assert_eq!(id, hug);
    assert_eq!(args.len(), 1);
    assert_eq!(args.arg::<String>("person").unwrap(), "alice");

    assert_eq!(m.on(&message("bob", &[], ">cuddle")).unwrap().0, hug);
    assert_eq!(m.on(&message("bob", &[], ">h x y")).unwrap().0, hug);
    assert_eq!(m.on(&message("bob", &[], "  >kiss")).unwrap().0, kiss);
}

#[test]
fn dispatch_is_case_sensitive_on_the_line() {
    let mut m = CommandManager::new(">");
    m.add_command(info("hello", &[]), vec![]);
    // Keys are stored in lower case, but the line is looked up as typed.
    assert!(m.on(&message("bob", &[], ">Hello")).is_none());
    assert!(m.on(&message("bob", &[], ">hello")).is_some());
}

#[test]
fn dispatch_needs_the_prefix() {
    let mut m = CommandManager::new(">");
    m.add_command(info("hello", &[]), vec![]);
    assert!(m.on(&message("bob", &[], "hello")).is_none());
    assert!(m.on(&message("bob", &[], "!hello")).is_none());
    assert!(m.on(&message("bob", &[], "")).is_none());
    assert!(m.on(&message("bob", &[], "> hello")).is_none());
    assert!(m.on(&message("bob", &[], ">unknown")).is_none());
}

#[test]
fn dispatch_drops_non_ascii() {
    let mut m = CommandManager::new(">");
    m.add_command(info("hello", &[]), vec![]);
    let (_, args) = m.on(&message("bob", &[], ">hello wörld")).unwrap();
    assert_eq!(args.len(), 1);
}

#[test]
fn guards_are_alternatives() {
    let mut m = CommandManager::new(">");
    let id = m.add_command(info("reset", &[]), vec![user_guard(vec!["affax_"]), streamer_guard(), mod_guard()]);
    assert_eq!(m.on(&message("affax_", &[], ">reset")).unwrap().0, id);
    assert_eq!(m.on(&message("x", &["moderator"], ">reset")).unwrap().0, id);
    assert_eq!(m.on(&message("x", &["broadcaster"], ">reset")).unwrap().0, id);
    assert!(m.on(&message("x", &["subscriber"], ">reset")).is_none());
}

#[test]
fn later_command_takes_over_a_key() {
    let mut m = CommandManager::new("!");
    let first = m.add_command(info("a", &["shared"]), vec![]);
    let second = m.add_command(info("b", &["SHARED"]), vec![]);
    assert_eq!(m.on(&message("x", &[], "!shared")).unwrap().0, second);
    assert_eq!(m.on(&message("x", &[], "!a")).unwrap().0, first);
}

#[test]
fn add_commands_in_order() {
    let mut m = CommandManager::new(">");
    let ids = m.add_commands(vec![(info("one", &["x"]), vec![]), (info("two", &["x"]), vec![])]);
    assert_eq!(ids, vec![0, 1]);
    assert_eq!(m.on(&message("u", &[], ">x")).unwrap().0, 1);
    assert_eq!(m.on(&message("u", &[], ">one")).unwrap().0, 0);
}

#[test]
fn longer_prefix() {
    let mut m = CommandManager::new("!!");
    m.add_command(info("go", &[]), vec![]);
    assert!(m.on(&message("u", &[], "!!go")).is_some());
    assert!(m.on(&message("u", &[], "!go")).is_none());
}

#[test]
fn results() {
    assert_eq!(StringResult("hi".to_string()).to_string(), "hi");
    assert_eq!("hey".into_result().to_string(), "hey");
    assert_eq!(String::from("yo").into_result().0, "yo");
    let _ = NoResult;
}

struct Plain;
impl Command for Plain {
    fn command_info(&self) -> CommandInfo {
        info("plain", &[])
    }
}

#[test]
fn default_guards_are_empty() {
    assert!(Plain.guards().is_empty());
    let i = Plain.command_info().duplicate();
    assert_eq!(i.name, "plain");
}
