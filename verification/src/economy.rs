//! The bot's economy: balances, gambling, the leaderboard and the reset.
use vstd::prelude::*;
use crate::args::{Args, ArgsError};
use crate::command::{Command, CommandInfo};
use crate::guards::{mod_guard, streamer_guard, user_guard, Guard};
use crate::number::{hex_string, push_decimal};
use crate::random::random_byte;
use crate::text::{decimal, hex, lowercase, lowercase_of, multiple, new_string, push_str, text_eq, views};
use crate::time::{clock_nanos, cooldown_over, Cooldown};

verus! {

/// A user of the economy: their login and their balance.
pub struct Model {
    pub id: String,
    pub balance: i64,
}

/// A new user with nothing.
pub fn create_user(id: &str) -> (r: Model)
    ensures
        r.id@ == id@,
        r.balance == 0,
{
    Model { id: new_string(id), balance: 0 }
}

/// The name of the currency, spelled for `count` units.
pub open spec fn dollars(count: i64) -> Seq<char> {
    if count == 1 {
        "Zimbabwean Dollar"@
    } else {
        "Zimbabwean Dollar"@ + seq!['s']
    }
}

fn push_dollars(s: &mut String, count: i64)
    ensures
        final(s)@ == old(s)@ + dollars(count),
{
    let word = multiple("Zimbabwean Dollar", count);
    push_str(s, word.as_str());
}

/// The guards of the economy's staff commands: the owner, the broadcaster
/// and the moderators.
fn staff_guards() -> (r: Vec<Guard>)
    ensures
        r@.len() == 3,
        r@[0] matches Guard::Users(v) && views(v@) == seq!["affax_"@],
        r@[1] matches Guard::Badge(b) && b@ == "broadcaster"@,
        r@[2] matches Guard::Badge(b) && b@ == "moderator"@,
{
    let mut g: Vec<Guard> = Vec::new();
    g.push(user_guard(vec!["affax_"]));
    g.push(streamer_guard());
    g.push(mod_guard());
    g
}

fn info(name: &str, description: &str, alias: Vec<&str>) -> (r: CommandInfo)
    ensures
        r.name@ == name@,
        r.description@ == description@,
        views(r.alias@) == alias@.map_values(|a: &str| a@),
{
    let mut v: Vec<String> = Vec::new();
    let mut i: usize = 0;
    while i < alias.len()
        invariant
            i <= alias@.len(),
            v@.len() == i,
            forall|j: int| 0 <= j < i ==> (#[trigger] v@[j])@ == alias@[j]@,
        decreases alias@.len() - i,
    {
        v.push(new_string(alias[i]));
        i = i + 1;
    }
    assert(views(v@) =~= alias@.map_values(|a: &str| a@));
    CommandInfo { name: new_string(name), description: new_string(description), alias: v }
}

// ---------------------------------------------------------------------------
// >balance
// ---------------------------------------------------------------------------

/// `>balance`: whispers the sender their balance.
pub struct Balance;

impl Command for Balance {
    fn command_info(&self) -> (r: CommandInfo)
        ensures
            r.name@ == "balance"@,
            r.description@ == "Get user balance."@,
            views(r.alias@) == seq!["bal"@, "money"@, "$"@],
    {
        info("balance", "Get user balance.", vec!["bal", "money", "$"])
    }

    /// Everyone may ask for their balance.
    fn guards(&self) -> (r: Vec<Guard>)
        ensures
            r@.len() == 0,
    {
        Vec::new()
    }
}

/// The whisper that tells `from` their balance.
pub open spec fn balance_text(from: Seq<char>, balance: i64) -> Seq<char> {
    from + " has "@ + decimal(balance as int) + " "@ + dollars(balance)
}

pub fn balance_message(from: &str, balance: i64) -> (r: String)
    ensures
        r@ == balance_text(from@, balance),
{
    let mut s = new_string(from);
    push_str(&mut s, " has ");
    push_decimal(&mut s, balance);
    push_str(&mut s, " ");
    push_dollars(&mut s, balance);
    s
}

// ---------------------------------------------------------------------------
// >gamble
// ---------------------------------------------------------------------------

/// Milliseconds between two games.
pub const COOLDOWN: u128 = 30000;

/// The smallest stake.
pub const MIN_STAKE: i64 = 1000;

/// A stake: everything, or an amount.
#[derive(Clone, Copy, Debug)]
pub enum GambaType {
    All,
    Amount(i64),
}

/// What a placed stake comes to.
pub enum GambleStep {
    /// The stake is refused, with this answer.
    Refuse(String),
    /// The game is on, for this amount.
    Play(i64),
}

/// `>gamble`: a 50/50 game on part of the sender's balance.
pub struct Gamble {
    cooldown: Cooldown,
}

impl Command for Gamble {
    fn command_info(&self) -> (r: CommandInfo)
        ensures
            r.name@ == "gamble"@,
            r.description@ == "Gamble on a 50/50."@,
            views(r.alias@) == seq!["gamba"@, "roulette"@],
    {
        info("gamble", "Gamble on a 50/50.", vec!["gamba", "roulette"])
    }

    /// Everyone may gamble.
    fn guards(&self) -> (r: Vec<Guard>)
        ensures
            r@.len() == 0,
    {
        Vec::new()
    }
}

/// The stake that an answer to `>gamble` asks for: the amount when it reads
/// as an integer, everything for `all` or `max`.
pub open spec fn stake_of(text: Seq<char>) -> Option<GambaType> {
    if crate::text::parses_as_i64(text) {
        Some(GambaType::Amount(crate::text::signed_value(text) as i64))
    } else if text == "all"@ || text == "max"@ {
        Some(GambaType::All)
    } else {
        None
    }
}

/// How reading the stake ends, from the arguments before and after: a
/// missing argument is `Custom("amount")`; otherwise the argument is read
/// (the cursor moves on) and is the stake `stake_of` gives, or `Parse`.
pub open spec fn stake_read(before: Args, after: Args, r: Result<Option<GambaType>, ArgsError>) -> bool {
    &&& after.items() == before.items()
    &&& before.position() >= before.items().len() ==> {
        &&& r matches Err(ArgsError::Custom(n)) && n@ == "amount"@
        &&& after.position() == before.position()
    }
    &&& before.position() < before.items().len() ==> {
        let text = before.items()[before.position() as int];
        &&& after.position() == before.position() + 1
        &&& match stake_of(text) {
            Some(g) => r matches Ok(Some(v)) && v == g,
            None => r matches Err(ArgsError::Parse),
        }
    }
}

/// The answer when `from` stakes `amount` against `balance`, if it is refused.
pub open spec fn refusal(from: Seq<char>, balance: i64, amount: i64) -> Option<Seq<char>> {
    if amount < 1000 {
        Some(from + " You can't gamble less than 1000."@)
    } else if balance < amount {
        Some(from + " You don't have enough to gamble."@)
    } else {
        None
    }
}

/// The amount a stake comes to.
pub open spec fn stake_amount(balance: i64, gamba: GambaType) -> i64 {
    match gamba {
        GambaType::All => balance,
        GambaType::Amount(a) => a,
    }
}

impl Gamble {
    pub closed spec fn last_game(&self) -> int {
        self.cooldown.last()
    }

    pub fn new(cooldown: Cooldown) -> (r: Gamble)
        ensures
            r.last_game() == cooldown.last(),
    {
        Gamble { cooldown }
    }

    /// Whether a game may be played at `now`.
    pub fn is_ready_at(&self, now: i128) -> (r: bool)
        ensures
            r == cooldown_over(self.last_game(), COOLDOWN as nat, now as int),
    {
        self.cooldown.is_done_at(COOLDOWN, now)
    }

    /// Whether a game may be played now.
    pub fn is_ready(&self) -> (r: bool)
        ensures
            exists|now: i128| r == cooldown_over(self.last_game(), COOLDOWN as nat, now as int),
    {
        self.is_ready_at(clock_nanos())
    }

    /// Reads the stake: an integer amount, or `all` / `max`. When the
    /// argument is not an integer it is read again as a word, so a word
    /// other than `all` or `max` is still consumed and the error is `Parse`.
    pub fn amount(args: &mut Args) -> (r: Result<GambaType, ArgsError>)
        ensures
            final(args).items() == old(args).items(),
            old(args).position() >= old(args).items().len() ==> {
                &&& r matches Err(ArgsError::Custom(n)) && n@ == "amount"@
                &&& final(args).position() == old(args).position()
            },
            old(args).position() < old(args).items().len() ==> {
                let text = old(args).items()[old(args).position() as int];
                &&& final(args).position() == old(args).position() + 1
                &&& match stake_of(text) {
                    Some(g) => r matches Ok(v) && v == g,
                    None => r matches Err(ArgsError::Parse),
                }
            },
    {
        match args.arg::<i64>("amount") {
            Ok(v) => Ok(GambaType::Amount(v)),
            Err(e) => {
                let word: String = match args.arg::<String>("amount") {
                    Ok(w) => w,
                    Err(e2) => {
                        return Err(e2);
                    },
                };
                if text_eq(word.as_str(), "all") || text_eq(word.as_str(), "max") {
                    Ok(GambaType::All)
                } else {
                    Err(e)
                }
            },
        }
    }

    /// The first steps of `>gamble` at `now`: while the cooldown runs, the
    /// call is dropped (`Ok(None)`) without reading the arguments; otherwise
    /// the stake is read as `amount` reads it. Only a stake read here goes
    /// on to the balance and to `place_at`.
    pub fn begin_at(&self, args: &mut Args, now: i128) -> (r: Result<Option<GambaType>, ArgsError>)
        ensures
            final(args).items() == old(args).items(),
            !cooldown_over(self.last_game(), COOLDOWN as nat, now as int) ==> {
                &&& r matches Ok(None)
                &&& final(args).position() == old(args).position()
            },
            cooldown_over(self.last_game(), COOLDOWN as nat, now as int) ==> stake_read(
                *old(args),
                *final(args),
                r,
            ),
    {
        if !self.is_ready_at(now) {
            return Ok(None);
        }
        match Gamble::amount(args) {
            Ok(g) => Ok(Some(g)),
            Err(e) => Err(e),
        }
    }

    /// `begin_at` at the current time.
    pub fn begin(&self, args: &mut Args) -> (r: Result<Option<GambaType>, ArgsError>)
        ensures
            final(args).items() == old(args).items(),
            exists|now: i128|
                {
                    &&& !cooldown_over(self.last_game(), COOLDOWN as nat, now as int) ==> {
                        &&& r matches Ok(None)
                        &&& final(args).position() == old(args).position()
                    }
                    &&& cooldown_over(self.last_game(), COOLDOWN as nat, now as int)
                        ==> #[trigger] stake_read(*old(args), *final(args), r)
                },
    {
        let now = clock_nanos();
        self.begin_at(args, now)
    }

    /// Places the stake of `from`, whose balance is `balance`, at `now`: a
    /// stake under 1000 or over the balance is refused; otherwise the game
    /// is on and the cooldown restarts at `now`.
    pub fn place_at(&mut self, from: &str, balance: i64, gamba: GambaType, now: i128) -> (r: GambleStep)
        ensures
            placed(*old(self), *final(self), from@, balance, gamba, now as int, r),
    {
        let amount = match gamba {
            GambaType::All => balance,
            GambaType::Amount(a) => a,
        };
        if amount < MIN_STAKE {
            let mut s = new_string(from);
            push_str(&mut s, " You can't gamble less than 1000.");
            return GambleStep::Refuse(s);
        }
        if balance < amount {
            let mut s = new_string(from);
            push_str(&mut s, " You don't have enough to gamble.");
            return GambleStep::Refuse(s);
        }
        self.cooldown.update_time_at(now);
        GambleStep::Play(amount)
    }

    /// `place_at` at the current time.
    pub fn place(&mut self, from: &str, balance: i64, gamba: GambaType) -> (r: GambleStep)
        ensures
            exists|now: i128| #[trigger] placed(*old(self), *final(self), from@, balance, gamba, now as int, r),
    {
        self.place_at(from, balance, gamba, clock_nanos())
    }
}

/// How a stake of `gamba` placed by `from` against `balance` at `now`
/// comes out: refused with an answer, and the cooldown untouched; or played
/// for the amount it comes to, with the cooldown restarted at `now`.
pub open spec fn placed(
    before: Gamble,
    after: Gamble,
    from: Seq<char>,
    balance: i64,
    gamba: GambaType,
    now: int,
    r: GambleStep,
) -> bool {
    let amount = stake_amount(balance, gamba);
    match refusal(from, balance, amount) {
        Some(text) => r matches GambleStep::Refuse(s) && s@ == text && after.last_game()
            == before.last_game(),
        None => r matches GambleStep::Play(a) && a == amount && after.last_game() == now,
    }
}

/// The balance after a game of `amount`, won or lost.
pub open spec fn settled(balance: i64, amount: i64, won: bool) -> int {
    if won {
        balance + amount
    } else {
        balance - amount
    }
}

/// The answer after a game.
pub open spec fn outcome_text(from: Seq<char>, amount: i64, won: bool, new_balance: i64) -> Seq<char> {
    from + " You "@ + (if won {
        "won"@
    } else {
        "lost"@
    }) + " "@ + decimal(amount as int) + " "@ + dollars(amount) + " "@ + (if won {
        "Clap"@
    } else {
        "pepeLaugh"@
    }) + " You have "@ + decimal(new_balance as int) + " "@ + dollars(new_balance) + " now."@
}

/// Settles a game of `amount` on `balance`: the new balance and the answer.
pub fn gamble_outcome(from: &str, balance: i64, amount: i64, won: bool) -> (r: (i64, String))
    requires
        MIN_STAKE <= amount <= balance,
        won ==> balance + amount <= i64::MAX,
    ensures
        r.0 == settled(balance, amount, won),
        won ==> r.0 == balance + amount,
        !won ==> r.0 == balance - amount,
        r.1@ == outcome_text(from@, amount, won, r.0),
{
    let new_value = if won {
        balance + amount
    } else {
        balance - amount
    };
    let mut s = new_string(from);
    push_str(&mut s, " You ");
    push_str(&mut s, if won {
        "won"
    } else {
        "lost"
    });
    push_str(&mut s, " ");
    push_decimal(&mut s, amount);
    push_str(&mut s, " ");
    push_dollars(&mut s, amount);
    push_str(&mut s, " ");
    push_str(&mut s, if won {
        "Clap"
    } else {
        "pepeLaugh"
    });
    push_str(&mut s, " You have ");
    push_decimal(&mut s, new_value);
    push_str(&mut s, " ");
    push_dollars(&mut s, new_value);
    push_str(&mut s, " now.");
    (new_value, s)
}

// ---------------------------------------------------------------------------
// >leaderboard
// ---------------------------------------------------------------------------

/// `>leaderboard`: the richest users.
pub struct Leaderboard;

impl Command for Leaderboard {
    fn command_info(&self) -> (r: CommandInfo)
        ensures
            r.name@ == "leaderboard"@,
            r.description@ == "Show the leaderboard."@,
            views(r.alias@) == seq!["lb"@, "top"@],
    {
        info("leaderboard", "Show the leaderboard.", vec!["lb", "top"])
    }

    fn guards(&self) -> (r: Vec<Guard>)
        ensures
            r@.len() == 3,
            r@[0] matches Guard::Users(v) && views(v@) == seq!["affax_"@],
            r@[1] matches Guard::Badge(b) && b@ == "broadcaster"@,
            r@[2] matches Guard::Badge(b) && b@ == "moderator"@,
    {
        staff_guards()
    }
}

/// The entry of the user at `rank` (counted from one).
pub open spec fn rank_text(rank: int, user: Model) -> Seq<char> {
    seq!['#'] + decimal(rank) + ": "@ + user.id@ + " "@ + decimal(user.balance as int)
}

/// The entries of the first users, separated by commas.
pub open spec fn ranks_text(users: Seq<Model>) -> Seq<char>
    decreases users.len(),
{
    if users.len() == 0 {
        Seq::<char>::empty()
    } else if users.len() == 1 {
        rank_text(1, users[0])
    } else {
        ranks_text(users.drop_last()) + ", "@ + rank_text(users.len() as int, users.last())
    }
}

/// The leaderboard line for users listed from the richest down, or nothing
/// for no users.
pub fn leaderboard_message(users: &Vec<Model>) -> (r: Option<String>)
    requires
        users@.len() < i64::MAX,
    ensures
        users@.len() == 0 ==> r is None,
        users@.len() > 0 ==> (r matches Some(s) && s@ == "Leaderboard: "@ + ranks_text(users@)),
{
    if users.len() == 0 {
        return None;
    }
    let mut s = new_string("Leaderboard: ");
    let ghost head = s@;
    let mut i: usize = 0;
    assert(users@.take(0) =~= Seq::<Model>::empty());
    while i < users.len()
        invariant
            i <= users@.len() < i64::MAX,
            head == "Leaderboard: "@,
            s@ == head + ranks_text(users@.take(i as int)),
        decreases users@.len() - i,
    {
        let ghost before = s@;
        if i > 0 {
            push_str(&mut s, ", ");
        }
        push_str(&mut s, "#");
        push_decimal(&mut s, (i + 1) as i64);
        push_str(&mut s, ": ");
        push_str(&mut s, users[i].id.as_str());
        push_str(&mut s, " ");
        push_decimal(&mut s, users[i].balance);
        proof {
            reveal_strlit("#");
            let t = users@.take(i + 1);
            assert(t.drop_last() =~= users@.take(i as int));
            assert(t.last() == users@[i as int]);
            if i == 0 {
                assert(s@ =~= head + rank_text(1, users@[0]));
            } else {
                assert(s@ =~= before + ", "@ + rank_text(i + 1, users@[i as int]));
            }
        }
        i = i + 1;
    }
    assert(users@.take(users@.len() as int) =~= users@);
    Some(s)
}

// ---------------------------------------------------------------------------
// >other_balance
// ---------------------------------------------------------------------------

/// `>other_balance`: the balance of another user.
pub struct OtherBalance;

impl Command for OtherBalance {
    fn command_info(&self) -> (r: CommandInfo)
        ensures
            r.name@ == "other_balance"@,
            r.description@ == "Show the balance of another user."@,
            views(r.alias@) == seq!["$->"@, "bal->"@],
    {
        info("other_balance", "Show the balance of another user.", vec!["$->", "bal->"])
    }

    fn guards(&self) -> (r: Vec<Guard>)
        ensures
            r@.len() == 3,
            r@[0] matches Guard::Users(v) && views(v@) == seq!["affax_"@],
            r@[1] matches Guard::Badge(b) && b@ == "broadcaster"@,
            r@[2] matches Guard::Badge(b) && b@ == "moderator"@,
    {
        staff_guards()
    }
}

impl OtherBalance {
    /// The user asked about, in lower case.
    pub fn target(args: &mut Args) -> (r: Result<String, ArgsError>)
        ensures
            final(args).items() == old(args).items(),
            old(args).position() < old(args).items().len() ==> {
                &&& final(args).position() == old(args).position() + 1
                &&& r matches Ok(w) && w@ == lowercase_of(
                    old(args).items()[old(args).position() as int],
                )
            },
            old(args).position() >= old(args).items().len() ==> {
                &&& final(args).position() == old(args).position()
                &&& r matches Err(ArgsError::Custom(n)) && n@ == "who"@
            },
    {
        match args.arg::<String>("who") {
            Ok(w) => Ok(lowercase(w.as_str())),
            Err(e) => Err(e),
        }
    }
}

/// The answer that tells the balance of `who`.
pub open spec fn other_balance_text(who: Seq<char>, balance: i64) -> Seq<char> {
    who + " -> "@ + decimal(balance as int) + " "@ + dollars(balance)
}

pub fn other_balance_message(who: &str, balance: i64) -> (r: String)
    ensures
        r@ == other_balance_text(who@, balance),
{
    let mut s = new_string(who);
    push_str(&mut s, " -> ");
    push_decimal(&mut s, balance);
    push_str(&mut s, " ");
    push_dollars(&mut s, balance);
    s
}

// ---------------------------------------------------------------------------
// >reset_economy
// ---------------------------------------------------------------------------

/// What a call of `>reset_economy` comes to.
pub enum ResetStep {
    /// Answer with this text; nothing is reset.
    Reply(String),
    /// The code matched: reset the economy, then call `confirm_reset`.
    Reset,
}

/// `>reset_economy`: sets every balance to zero, in two steps. The first
/// call issues a code; a call with that code resets the economy.
pub struct ResetEcon {
    verification_code: Option<String>,
}

/// The code made from four random bytes, as `{:x}{:x}-{:x}{:x}`.
pub open spec fn code_text(bytes: [u8; 4]) -> Seq<char> {
    hex(bytes[0] as nat) + hex(bytes[1] as nat) + seq!['-'] + hex(bytes[2] as nat) + hex(
        bytes[3] as nat,
    )
}

/// The warning that issues `code`.
pub open spec fn warning_text(code: Seq<char>) -> Seq<char> {
    "You are setting the balance of every user to 0. THIS IS IRREVERSIBLE. Type >reset_economy "@
        + code + " to confirm."@
}

impl Command for ResetEcon {
    fn command_info(&self) -> (r: CommandInfo)
        ensures
            r.name@ == "reset_economy"@,
            r.description@ == "Reset the economy. VERY DANGEROUS"@,
            r.alias@.len() == 0,
    {
        CommandInfo {
            name: new_string("reset_economy"),
            description: new_string("Reset the economy. VERY DANGEROUS"),
            alias: Vec::new(),
        }
    }

    fn guards(&self) -> (r: Vec<Guard>)
        ensures
            r@.len() == 3,
            r@[0] matches Guard::Users(v) && views(v@) == seq!["affax_"@],
            r@[1] matches Guard::Badge(b) && b@ == "broadcaster"@,
            r@[2] matches Guard::Badge(b) && b@ == "moderator"@,
    {
        staff_guards()
    }
}

impl ResetEcon {
    /// The code that was issued and not used yet.
    pub closed spec fn pending(&self) -> Option<Seq<char>> {
        match &self.verification_code {
            Some(c) => Some(c@),
            None => None,
        }
    }

    pub fn new() -> (r: ResetEcon)
        ensures
            r.pending() is None,
    {
        ResetEcon { verification_code: None }
    }

    /// Handles a call, with `bytes` as the randomness for a new code. With
    /// no code pending, a code is issued and announced, and the arguments
    /// are not read. With a code pending, the next argument is read: a
    /// missing one is an error, a wrong one is answered, and the right one
    /// asks for the reset; the pending code stays in every case.
    pub fn execute_with(&mut self, args: &mut Args, bytes: [u8; 4]) -> (r: Result<ResetStep, ArgsError>)
        ensures
            reset_handled(*old(self), *final(self), *old(args), *final(args), bytes, r),
    {
        match &self.verification_code {
            Some(code) => {
                let given: String = match args.arg::<String>("code") {
                    Ok(g) => g,
                    Err(e) => {
                        return Err(e);
                    },
                };
                if *code != given {
                    return Ok(ResetStep::Reply(new_string("Reset code is incorrect.")));
                }
                Ok(ResetStep::Reset)
            },
            None => {
                let mut code = hex_string(bytes[0]);
                let b1 = hex_string(bytes[1]);
                push_str(&mut code, b1.as_str());
                push_str(&mut code, "-");
                let b2 = hex_string(bytes[2]);
                push_str(&mut code, b2.as_str());
                let b3 = hex_string(bytes[3]);
                push_str(&mut code, b3.as_str());
                proof {
                    reveal_strlit("-");
                    assert(code@ =~= code_text(bytes));
                }
                let mut text = new_string(
                    "You are setting the balance of every user to 0. THIS IS IRREVERSIBLE. Type >reset_economy ",
                );
                push_str(&mut text, code.as_str());
                push_str(&mut text, " to confirm.");
                self.verification_code = Some(code);
                Ok(ResetStep::Reply(text))
            },
        }
    }

    /// Handles a call, drawing four random bytes for a new code.
    pub fn execute(&mut self, args: &mut Args) -> (r: Result<ResetStep, ArgsError>)
        ensures
            exists|bytes: [u8; 4]|
                #[trigger] reset_handled(*old(self), *final(self), *old(args), *final(args), bytes, r),
    {
        let bytes = [random_byte(), random_byte(), random_byte(), random_byte()];
        let ghost s0 = *self;
        let ghost a0 = *args;
        let r = self.execute_with(args, bytes);
        assert(reset_handled(s0, *self, a0, *args, bytes, r));
        r
    }

    /// Ends a confirmed reset, once every balance is zero: the code is used
    /// up.
    pub fn confirm_reset(&mut self) -> (r: String)
        ensures
            final(self).pending() is None,
            r@ == "Reset successful. peepoBye dollars"@,
    {
        self.verification_code = None;
        new_string("Reset successful. peepoBye dollars")
    }
}

/// How `execute_with` answers with `bytes` as its randomness (see there).
pub open spec fn reset_handled(
    before: ResetEcon,
    after: ResetEcon,
    args_before: Args,
    args_after: Args,
    bytes: [u8; 4],
    r: Result<ResetStep, ArgsError>,
) -> bool {
    &&& args_after.items() == args_before.items()
    &&& match before.pending() {
        None => {
            &&& after.pending() == Some(code_text(bytes))
            &&& r matches Ok(ResetStep::Reply(s)) && s@ == warning_text(code_text(bytes))
            &&& args_after.position() == args_before.position()
        },
        Some(code) => {
            &&& after.pending() == before.pending()
            &&& if args_before.position() >= args_before.items().len() {
                &&& r matches Err(ArgsError::Custom(n)) && n@ == "code"@
                &&& args_after.position() == args_before.position()
            } else {
                &&& args_after.position() == args_before.position() + 1
                &&& if args_before.items()[args_before.position() as int] == code {
                    r matches Ok(ResetStep::Reset)
                } else {
                    r matches Ok(ResetStep::Reply(s)) && s@ == "Reset code is incorrect."@
                }
            }
        },
    }
}

} // verus!

verus! {

/// A reset is asked for only with a pending code, and only when the
/// argument given is that code.
pub proof fn lemma_reset_needs_code(
    before: ResetEcon,
    after: ResetEcon,
    a0: Args,
    a1: Args,
    bytes: [u8; 4],
    r: Result<ResetStep, ArgsError>,
)
    requires
        reset_handled(before, after, a0, a1, bytes, r),
        r matches Ok(ResetStep::Reset),
    ensures
        before.pending() is Some,
        a0.position() < a0.items().len(),
        a0.items()[a0.position() as int] == before.pending()->0,
{
}

/// Giving back the code that the previous call issued asks for the reset.
pub proof fn lemma_issued_code_confirms(
    s0: ResetEcon,
    s1: ResetEcon,
    s2: ResetEcon,
    a0: Args,
    a1: Args,
    b0: Args,
    b1: Args,
    bytes: [u8; 4],
    bytes2: [u8; 4],
    r1: Result<ResetStep, ArgsError>,
    r2: Result<ResetStep, ArgsError>,
)
    requires
        s0.pending() is None,
        reset_handled(s0, s1, a0, a1, bytes, r1),
        reset_handled(s1, s2, b0, b1, bytes2, r2),
        b0.position() < b0.items().len(),
        b0.items()[b0.position() as int] == code_text(bytes),
    ensures
        r1 matches Ok(ResetStep::Reply(_)),
        r2 matches Ok(ResetStep::Reset),
        s2.pending() == Some(code_text(bytes)),
{
}

/// A game that is played never leaves a balance below zero: a stake that
/// is not refused lies between 1000 and the balance.
pub proof fn lemma_played_game_keeps_balance(balance: i64, gamba: GambaType, from: Seq<char>, won: bool)
    requires
        refusal(from, balance, stake_amount(balance, gamba)) is None,
    ensures
        1000 <= stake_amount(balance, gamba) <= balance,
        settled(balance, stake_amount(balance, gamba), won) >= 0,
{
}

} // verus!

verus! {

/// A played game restarts the cooldown at the instant it is played: the
/// next game may be played from 30 seconds later on, and not before.
pub proof fn lemma_game_ready_again(
    before: Gamble,
    after: Gamble,
    from: Seq<char>,
    balance: i64,
    gamba: GambaType,
    played: int,
    later: int,
    r: GambleStep,
)
    requires
        placed(before, after, from, balance, gamba, played, r),
        r is Play,
    ensures
        cooldown_over(after.last_game(), COOLDOWN as nat, later) <==> later >= played + 30_000
            * 1_000_000,
{
    if later >= played + 30_000 * 1_000_000 {
        crate::time::lemma_cooldown_passes_again(COOLDOWN as nat, played, later);
    }
    if cooldown_over(after.last_game(), COOLDOWN as nat, later) {
        crate::time::lemma_cooldown_spacing(COOLDOWN as nat, played, later);
    }
}

/// A game moves the balance by exactly the stake: up by it on a win, down
/// by it on a loss, whatever the balance and the stake.
pub proof fn lemma_game_moves_balance_by_stake(balance: i64, amount: i64, won: bool)
    ensures
        won ==> settled(balance, amount, won) - balance == amount,
        !won ==> balance - settled(balance, amount, won) == amount,
        settled(balance, amount, true) - settled(balance, amount, false) == 2 * amount,
{
}

} // verus!
