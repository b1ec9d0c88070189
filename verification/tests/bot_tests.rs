use twitchbot::args::{Args, ArgsError};
use twitchbot::command::{Command, CommandManager};
use twitchbot::commands::{
    hug_message, kiss_message, register_hug, register_kiss, tag_reply, Ctx, Dap, Hello, Tag, TagStyle,
};
use twitchbot::economy::{
    balance_message, create_user, gamble_outcome, leaderboard_message, other_balance_message, Balance,
    GambaType, Gamble, GambleStep, Leaderboard, Model, OtherBalance, ResetEcon, ResetStep,
};
use twitchbot::guards::{ChatMessage, Guard};
use rand::thread_rng;
use twitchbot::random::RandomItem;
use twitchbot::time::Cooldown;

fn message(login: &str, badges: &[&str], text: &str) -> ChatMessage {
    ChatMessage {
        sender_login: login.to_string(),
        sender_id: "1".to_string(),
        channel_login: "chan".to_string(),
        text: text.to_string(),
        badges: badges.iter().map(|b| b.to_string()).collect(),
    }
}

fn args(words: &[&str]) -> Args {
    Args::new(words.iter().map(|s| s.to_string()).collect())
}

#[test]
fn dap_answers() {
    assert_eq!(Dap.execute(&message("samwise_80", &[], ">dap")), "Sam daps up Classed SupHomie");
    assert_eq!(Dap.execute(&message("classed", &[], ">dap")), "Classed daps up Sam SupHomie");
    let info = Dap.command_info();
    assert_eq!(info.name, "dap");
    assert_eq!(info.description, "Dap you up.");
    assert!(info.alias.is_empty());
    let guards = Dap.guards();
    assert_eq!(guards.len(), 2);
    assert!(matches!(&guards[0], Guard::Users(v) if v == &vec!["samwise_80".to_string()]));
    assert!(matches!(&guards[1], Guard::Badge(b) if b == "broadcaster"));
}

#[test]
fn dap_only_for_sam_or_the_streamer() {
    let mut m = CommandManager::new(">");
    m.add_command(Dap.command_info(), Dap.guards());
    assert!(m.on(&message("samwise_80", &[], ">dap")).is_some());
    assert!(m.on(&message("x", &["broadcaster"], ">dap")).is_some());
    assert!(m.on(&message("x", &[], ">dap")).is_none());
}

#[test]
fn hello_answers() {
    assert_eq!(Hello.execute(), "Hello world!");
    assert_eq!(Hello.command_info().name, "hello");
    assert_eq!(Hello.command_info().description, "Hello World!");
    assert!(Hello.guards().is_empty());
    let _ = Ctx {}.clone();
}

#[test]
fn tag_replies() {
    assert_eq!(tag_reply(TagStyle::Hug, "a", "b", 0), "a hugged b, How sweet Lovegers");
    assert_eq!(tag_reply(TagStyle::Hug, "a", "b", 1), "a hugged b, Very cute :3");
    assert_eq!(tag_reply(TagStyle::Hug, "a", "b", 2), "a hugged b, Homies SupHomie");
    assert_eq!(tag_reply(TagStyle::Hug, "a", "b", 3), "a hugged b, b hugged a back peepoHug");
    assert_eq!(tag_reply(TagStyle::Kiss, "a", "b", 0), "a kissed b, What a cutie catKISS");
    assert_eq!(tag_reply(TagStyle::Kiss, "a", "b", 1), "a kissed b, Awwwwwww Lovegers");
    assert_eq!(tag_reply(TagStyle::Kiss, "a", "b", 2), "a kissed b, Mwa mwa mwa peepoKiss");
    assert_eq!(tag_reply(TagStyle::Kiss, "a", "b", 3), "a kissed b, b kissed a back Kissahomie");
}

#[test]
fn random_tags_are_one_of_four() {
    let mut rng = thread_rng();
    let hugs: Vec<String> = (0..4).map(|i| tag_reply(TagStyle::Hug, "a", "b", i)).collect();
    let kisses: Vec<String> = (0..4).map(|i| tag_reply(TagStyle::Kiss, "a", "b", i)).collect();
    let mut seen = std::collections::HashSet::new();
    for _ in 0..200 {
        let h = hug_message(&mut rng, "a", "b");
        assert!(hugs.contains(&h));
        seen.insert(h);
        assert!(kisses.contains(&kiss_message(&mut rng, "a", "b")));
    }
    assert!(seen.len() > 1);
}

#[test]
fn random_item_draws_from_the_collection() {
    let mut rng = thread_rng();
    let v = vec![1, 2, 3];
    for _ in 0..50 {
        assert!(v.contains(v.random_item(&mut rng)));
        let s: &[i32] = &v;
        assert!(v.contains(s.random_item(&mut rng)));
    }
}

#[test]
fn tag_command_reads_a_person() {
    let mut tag = Tag::new("hug", "Hug your friends.", TagStyle::Hug);
    let mut a = args(&["alice"]);
    let text = tag.execute("bob", &mut a).unwrap();
    assert!(text.starts_with("bob hugged alice, "));
    let mut none = args(&[]);
    assert!(matches!(tag.execute("bob", &mut none), Err(ArgsError::Custom(n)) if n == "person"));
    let tag2 = Tag::new_alias("kiss", "Kiss", vec!["smooch".to_string()], TagStyle::Kiss);
    assert_eq!(tag2.command_info().alias, vec!["smooch".to_string()]);
}

#[test]
fn register_tags() {
    let mut m = CommandManager::new(">");
    let (hug, hug_tag) = register_hug(&mut m);
    let (kiss, _) = register_kiss(&mut m);
    assert_eq!(hug_tag.command_info().name, "hug");
    assert_eq!(m.on(&message("u", &[], ">hug bob")).unwrap().0, hug);
    assert_eq!(m.on(&message("u", &[], ">kiss bob")).unwrap().0, kiss);
}

#[test]
fn balance_texts() {
    assert_eq!(balance_message("bob", 1), "bob has 1 Zimbabwean Dollar");
    assert_eq!(balance_message("bob", 0), "bob has 0 Zimbabwean Dollars");
    assert_eq!(balance_message("bob", -5), "bob has -5 Zimbabwean Dollars");
    let info = Balance.command_info();
    assert_eq!(info.name, "balance");
    assert_eq!(info.alias, vec!["bal".to_string(), "money".to_string(), "$".to_string()]);
}

#[test]
fn gamble_amounts() {
    let mut a = args(&["1500"]);
    assert!(matches!(Gamble::amount(&mut a), Ok(GambaType::Amount(1500))));
    let mut a = args(&["all"]);
    assert!(matches!(Gamble::amount(&mut a), Ok(GambaType::All)));
    let mut a = args(&["max", "x"]);
    assert!(matches!(Gamble::amount(&mut a), Ok(GambaType::All)));
    let mut a = args(&["lots", "7"]);
    assert!(matches!(Gamble::amount(&mut a), Err(ArgsError::Parse)));
    // The word was read, so the next argument is the following one.
    assert_eq!(a.arg::<i64>("n").unwrap(), 7);
    let mut a = args(&[]);
    assert!(matches!(Gamble::amount(&mut a), Err(ArgsError::Custom(n)) if n == "amount"));
}

#[test]
fn gamble_refusals_and_cooldown() {
    let mut g = Gamble::new(Cooldown::new());
    let now = 1_000_000_000_000i128;
    assert!(g.is_ready_at(now));
    match g.place_at("bob", 5000, GambaType::Amount(999), now) {
        GambleStep::Refuse(s) => assert_eq!(s, "bob You can't gamble less than 1000."),
        _ => panic!(),
    }
    match g.place_at("bob", 500, GambaType::All, now) {
        GambleStep::Refuse(s) => assert_eq!(s, "bob You can't gamble less than 1000."),
        _ => panic!(),
    }
    match g.place_at("bob", 1500, GambaType::Amount(2000), now) {
        GambleStep::Refuse(s) => assert_eq!(s, "bob You don't have enough to gamble."),
        _ => panic!(),
    }
    assert!(g.is_ready_at(now));
    assert!(matches!(g.place_at("bob", 1500, GambaType::All, now), GambleStep::Play(1500)));
    assert!(!g.is_ready_at(now + 29_999 * 1_000_000));
    assert!(g.is_ready_at(now + 30_000 * 1_000_000));
    assert_eq!(g.command_info().name, "gamble");
    let mut h = Gamble::new(Cooldown::new());
    assert!(h.is_ready());
    assert!(matches!(h.place("bob", 2000, GambaType::Amount(1000)), GambleStep::Play(1000)));
    assert!(!h.is_ready());
}

#[test]
fn gamble_outcomes() {
    let (v, s) = gamble_outcome("bob", 3000, 1000, true);
    assert_eq!(v, 4000);
    assert_eq!(s, "bob You won 1000 Zimbabwean Dollars Clap You have 4000 Zimbabwean Dollars now.");
    let (v, s) = gamble_outcome("bob", 1001, 1000, false);
    assert_eq!(v, 1);
    assert_eq!(s, "bob You lost 1000 Zimbabwean Dollars pepeLaugh You have 1 Zimbabwean Dollar now.");
    let (v, _) = gamble_outcome("bob", 1000, 1000, false);
    assert_eq!(v, 0);
}

#[test]
fn leaderboard_text() {
    assert!(leaderboard_message(&vec![]).is_none());
    let users = vec![
        Model { id: "a".to_string(), balance: 300 },
        Model { id: "b".to_string(), balance: -2 },
        create_user("c"),
    ];
    assert_eq!(leaderboard_message(&users).unwrap(), "Leaderboard: #1: a 300, #2: b -2, #3: c 0");
    assert_eq!(
        leaderboard_message(&vec![create_user("z")]).unwrap(),
        "Leaderboard: #1: z 0"
    );
    let info = Leaderboard.command_info();
    assert_eq!(info.alias, vec!["lb".to_string(), "top".to_string()]);
    assert_eq!(Leaderboard.guards().len(), 3);
}

#[test]
fn other_balance() {
    let mut a = args(&["BoB"]);
    assert_eq!(OtherBalance::target(&mut a).unwrap(), "bob");
    let mut a = args(&[]);
    assert!(matches!(OtherBalance::target(&mut a), Err(ArgsError::Custom(n)) if n == "who"));
    assert_eq!(other_balance_message("bob", 1), "bob -> 1 Zimbabwean Dollar");
    assert_eq!(other_balance_message("bob", 12), "bob -> 12 Zimbabwean Dollars");
    assert_eq!(OtherBalance.command_info().alias, vec!["$->".to_string(), "bal->".to_string()]);
    let mut m = CommandManager::new(">");
    let id = m.add_command(OtherBalance.command_info(), OtherBalance.guards());
    assert_eq!(m.on(&message("x", &["moderator"], ">bal-> bob")).unwrap().0, id);
    assert!(m.on(&message("x", &[], ">$-> bob")).is_none());
}

#[test]
fn create_user_starts_at_zero() {
    let u = create_user("bob");
    assert_eq!(u.id, "bob");
    assert_eq!(u.balance, 0);
}

#[test]
fn reset_flow() {
    let mut r = ResetEcon::new();
    assert_eq!(r.command_info().name, "reset_economy");
    let mut a = args(&["whatever"]);
    let code = match r.execute_with(&mut a, [0xab, 0x1, 0x0, 0xff]).unwrap() {
        ResetStep::Reply(s) => {
            assert_eq!(
                s,
                "You are setting the balance of every user to 0. THIS IS IRREVERSIBLE. Type >reset_economy ab1-0ff to confirm."
            );
            "ab1-0ff".to_string()
        }
        ResetStep::Reset => panic!(),
    };
    // The arguments were not read.
    assert_eq!(a.arg::<String>("x").unwrap(), "whatever");
    let mut wrong = args(&["nope"]);
    match r.execute_with(&mut wrong, [0, 0, 0, 0]).unwrap() {
        ResetStep::Reply(s) => assert_eq!(s, "Reset code is incorrect."),
        ResetStep::Reset => panic!(),
    }
    let mut missing = args(&[]);
    assert!(matches!(r.execute_with(&mut missing, [0, 0, 0, 0]), Err(ArgsError::Custom(n)) if n == "code"));
    let mut right = args(&[&code]);
    assert!(matches!(r.execute_with(&mut right, [0, 0, 0, 0]), Ok(ResetStep::Reset)));
    // Until the reset is confirmed the code stays valid.
    let mut again = args(&[&code]);
    assert!(matches!(r.execute_with(&mut again, [0, 0, 0, 0]), Ok(ResetStep::Reset)));
    assert_eq!(r.confirm_reset(), "Reset successful. peepoBye dollars");
    // After the reset a new code is issued.
    let mut next = args(&[&code]);
    assert!(matches!(r.execute(&mut next), Ok(ResetStep::Reply(s)) if s.starts_with("You are setting")));
}

#[test]
fn reset_random_code_shape() {
    let mut r = ResetEcon::new();
    let mut a = args(&[]);
    let text = match r.execute(&mut a).unwrap() {
        ResetStep::Reply(s) => s,
        ResetStep::Reset => panic!(),
    };
    let code = text
        .trim_start_matches("You are setting the balance of every user to 0. THIS IS IRREVERSIBLE. Type >reset_economy ")
        .trim_end_matches(" to confirm.")
        .to_string();
    let parts: Vec<&str> = code.split('-').collect();
    assert_eq!(parts.len(), 2);
    assert!(code.chars().all(|c| c == '-' || c.is_ascii_hexdigit()));
    let mut confirm = args(&[&code]);
    assert!(matches!(r.execute(&mut confirm), Ok(ResetStep::Reset)));
}

#[test]
fn gamble_begins_with_the_cooldown() {
    let mut g = Gamble::new(Cooldown::new());
    let now = 1_000_000_000_000i128;
    let mut a = args(&["1500"]);
    assert!(matches!(g.begin_at(&mut a, now), Ok(Some(GambaType::Amount(1500)))));
    assert!(matches!(g.place_at("bob", 5000, GambaType::Amount(1500), now), GambleStep::Play(1500)));
    // While the cooldown runs, the arguments are not read.
    let mut b = args(&["oops"]);
    assert!(matches!(g.begin_at(&mut b, now + 1), Ok(None)));
    assert_eq!(b.arg::<String>("x").unwrap(), "oops");
    let mut c = args(&["oops"]);
    assert!(matches!(g.begin_at(&mut c, now + 30_000 * 1_000_000), Err(ArgsError::Parse)));
    let mut d = args(&[]);
    assert!(matches!(Gamble::new(Cooldown::new()).begin(&mut d), Err(ArgsError::Custom(n)) if n == "amount"));
}
