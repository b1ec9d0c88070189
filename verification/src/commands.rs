//! The bot's chat commands that do not touch the economy.
use vstd::prelude::*;
use rand::rngs::ThreadRng;
use crate::args::{Args, ArgsError};
use crate::command::{Command, CommandInfo, CommandManager};
use crate::guards::{streamer_guard, user_guard, ChatMessage, Guard};
use crate::random::{thread_rng, RandomItem};
use crate::text::{new_string, push_str, text_eq, views};

verus! {

/// The bot's shared context.
#[derive(Clone)]
pub struct Ctx {}

/// The login of the one who daps up.
pub const DAPPER: &'static str = "samwise_80";

/// `>dap`: Sam and Classed dap each other up.
pub struct Dap;

/// The reply to `>dap` from `login`.
pub open spec fn dap_text(login: Seq<char>) -> Seq<char> {
    if login == "samwise_80"@ {
        "Sam"@ + " daps up "@ + "Classed"@ + " SupHomie"@
    } else {
        "Classed"@ + " daps up "@ + "Sam"@ + " SupHomie"@
    }
}

impl Command for Dap {
    fn command_info(&self) -> (r: CommandInfo)
        ensures
            r.name@ == "dap"@,
            r.description@ == "Dap you up."@,
            r.alias@.len() == 0,
    {
        CommandInfo {
            name: new_string("dap"),
            description: new_string("Dap you up."),
            alias: Vec::new(),
        }
    }

    fn guards(&self) -> (r: Vec<Guard>)
        ensures
            r@.len() == 2,
            r@[0] matches Guard::Users(v) && views(v@) == seq!["samwise_80"@],
            r@[1] matches Guard::Badge(b) && b@ == "broadcaster"@,
    {
        let mut g: Vec<Guard> = Vec::new();
        g.push(user_guard(vec![DAPPER]));
        g.push(streamer_guard());
        g
    }
}

impl Dap {
    pub fn execute(&self, message: &ChatMessage) -> (r: String)
        ensures
            r@ == dap_text(message.sender_login@),
    {
        let is_dapper = text_eq(message.sender_login.as_str(), DAPPER);
        let first = if is_dapper {
            "Sam"
        } else {
            "Classed"
        };
        let second = if is_dapper {
            "Classed"
        } else {
            "Sam"
        };
        let mut s = new_string(first);
        push_str(&mut s, " daps up ");
        push_str(&mut s, second);
        push_str(&mut s, " SupHomie");
        s
    }
}

/// `>hello`: greets the world.
pub struct Hello;

impl Command for Hello {
    fn command_info(&self) -> (r: CommandInfo)
        ensures
            r.name@ == "hello"@,
            r.description@ == "Hello World!"@,
            r.alias@.len() == 0,
    {
        CommandInfo {
            name: new_string("hello"),
            description: new_string("Hello World!"),
            alias: Vec::new(),
        }
    }

    /// Everyone may say hello.
    fn guards(&self) -> (r: Vec<Guard>)
        ensures
            r@.len() == 0,
    {
        Vec::new()
    }
}

impl Hello {
    pub fn execute(&self) -> (r: String)
        ensures
            r@ == "Hello world!"@,
    {
        new_string("Hello world!")
    }
}

/// How a tag command answers.
#[derive(Clone, Copy)]
pub enum TagStyle {
    Hug,
    Kiss,
}

/// The four answers to `from` hugging `to`.
pub open spec fn hug_choice(from: Seq<char>, to: Seq<char>, pick: int) -> Seq<char> {
    if pick == 0 {
        "How sweet Lovegers"@
    } else if pick == 1 {
        "Very cute :3"@
    } else if pick == 2 {
        "Homies SupHomie"@
    } else {
        to + " hugged "@ + from + " back peepoHug"@
    }
}

/// The four answers to `from` kissing `to`.
pub open spec fn kiss_choice(from: Seq<char>, to: Seq<char>, pick: int) -> Seq<char> {
    if pick == 0 {
        "What a cutie catKISS"@
    } else if pick == 1 {
        "Awwwwwww Lovegers"@
    } else if pick == 2 {
        "Mwa mwa mwa peepoKiss"@
    } else {
        to + " kissed "@ + from + " back Kissahomie"@
    }
}

/// The line for `from` tagging `to` with the answer numbered `pick`.
pub open spec fn tag_text(style: TagStyle, from: Seq<char>, to: Seq<char>, pick: int) -> Seq<char> {
    match style {
        TagStyle::Hug => from + " hugged "@ + to + ", "@ + hug_choice(from, to, pick),
        TagStyle::Kiss => from + " kissed "@ + to + ", "@ + kiss_choice(from, to, pick),
    }
}

/// The four answers of a style, as strings.
fn choices(style: TagStyle, from: &str, to: &str) -> (r: Vec<String>)
    ensures
        r@.len() == 4,
        forall|i: int| 0 <= i < 4 ==> #[trigger] r@[i]@ == (match style {
            TagStyle::Hug => hug_choice(from@, to@, i),
            TagStyle::Kiss => kiss_choice(from@, to@, i),
        }),
{
    let mut v: Vec<String> = Vec::new();
    match style {
        TagStyle::Hug => {
            v.push(new_string("How sweet Lovegers"));
            v.push(new_string("Very cute :3"));
            v.push(new_string("Homies SupHomie"));
            let mut last = new_string(to);
            push_str(&mut last, " hugged ");
            push_str(&mut last, from);
            push_str(&mut last, " back peepoHug");
            v.push(last);
        },
        TagStyle::Kiss => {
            v.push(new_string("What a cutie catKISS"));
            v.push(new_string("Awwwwwww Lovegers"));
            v.push(new_string("Mwa mwa mwa peepoKiss"));
            let mut last = new_string(to);
            push_str(&mut last, " kissed ");
            push_str(&mut last, from);
            push_str(&mut last, " back Kissahomie");
            v.push(last);
        },
    }
    v
}

/// The line for `from` tagging `to`, with the answer numbered `pick`.
pub fn tag_reply(style: TagStyle, from: &str, to: &str, pick: usize) -> (r: String)
    requires
        pick < 4,
    ensures
        r@ == tag_text(style, from@, to@, pick as int),
{
    let v = choices(style, from, to);
    let answer = &v[pick];
    tag_line(style, from, to, answer)
}

fn tag_line(style: TagStyle, from: &str, to: &str, answer: &String) -> (r: String)
    ensures
        r@ == (match style {
            TagStyle::Hug => from@ + " hugged "@ + to@ + ", "@ + answer@,
            TagStyle::Kiss => from@ + " kissed "@ + to@ + ", "@ + answer@,
        }),
{
    let mut s = new_string(from);
    match style {
        TagStyle::Hug => push_str(&mut s, " hugged "),
        TagStyle::Kiss => push_str(&mut s, " kissed "),
    }
    push_str(&mut s, to);
    push_str(&mut s, ", ");
    push_str(&mut s, answer.as_str());
    s
}

/// The line for `from` tagging `to`, with one of the four answers drawn at
/// random.
pub fn tag_message(style: TagStyle, rng: &mut ThreadRng, from: &str, to: &str) -> (r: String)
    ensures
        exists|pick: int| 0 <= pick < 4 && r@ == #[trigger] tag_text(style, from@, to@, pick),
{
    let v = choices(style, from, to);
    let answer = v.random_item(rng);
    let ghost pick = choose|i: int| 0 <= i < v@.len() && v@[i] == *answer;
    let r = tag_line(style, from, to, answer);
    assert(r@ == tag_text(style, from@, to@, pick));
    r
}

/// `from` hugs `to`; one of four answers is drawn at random.
pub fn hug_message(rng: &mut ThreadRng, from: &str, to: &str) -> (r: String)
    ensures
        exists|pick: int| 0 <= pick < 4 && r@ == #[trigger] tag_text(TagStyle::Hug, from@, to@, pick),
{
    tag_message(TagStyle::Hug, rng, from, to)
}

/// `from` kisses `to`; one of four answers is drawn at random.
pub fn kiss_message(rng: &mut ThreadRng, from: &str, to: &str) -> (r: String)
    ensures
        exists|pick: int| 0 <= pick < 4 && r@ == #[trigger] tag_text(TagStyle::Kiss, from@, to@, pick),
{
    tag_message(TagStyle::Kiss, rng, from, to)
}

/// A command in which the sender tags another person.
pub struct Tag {
    info: CommandInfo,
    style: TagStyle,
    rng: ThreadRng,
}

impl Tag {
    pub closed spec fn info(&self) -> CommandInfo {
        self.info
    }

    pub closed spec fn style(&self) -> TagStyle {
        self.style
    }

    pub fn new(name: &str, description: &str, style: TagStyle) -> (r: Tag)
        ensures
            r.info().name@ == name@,
            r.info().description@ == description@,
            r.info().alias@.len() == 0,
            r.style() == style,
    {
        Tag {
            info: CommandInfo {
                name: new_string(name),
                description: new_string(description),
                alias: Vec::new(),
            },
            style,
            rng: thread_rng(),
        }
    }

    pub fn new_alias(name: &str, description: &str, alias: Vec<String>, style: TagStyle) -> (r: Tag)
        ensures
            r.info().name@ == name@,
            r.info().description@ == description@,
            views(r.info().alias@) == views(alias@),
            r.style() == style,
    {
        Tag {
            info: CommandInfo { name: new_string(name), description: new_string(description), alias },
            style,
            rng: thread_rng(),
        }
    }

    /// Reads the person to tag and answers with the tag line; a missing
    /// person is an error.
    pub fn execute(&mut self, from: &str, args: &mut Args) -> (r: Result<String, ArgsError>)
        ensures
            final(self).info() == old(self).info(),
            final(self).style() == old(self).style(),
            final(args).items() == old(args).items(),
            old(args).position() < old(args).items().len() ==> {
                &&& final(args).position() == old(args).position() + 1
                &&& r matches Ok(s) && exists|pick: int|
                    0 <= pick < 4 && s@ == #[trigger] tag_text(
                        old(self).style(),
                        from@,
                        old(args).items()[old(args).position() as int],
                        pick,
                    )
            },
            old(args).position() >= old(args).items().len() ==> {
                &&& final(args).position() == old(args).position()
                &&& r matches Err(ArgsError::Custom(n)) && n@ == "person"@
            },
    {
        let person: String = match args.arg::<String>("person") {
            Ok(p) => p,
            Err(e) => {
                return Err(e);
            },
        };
        Ok(tag_message(self.style, &mut self.rng, from, person.as_str()))
    }
}

impl Command for Tag {
    fn command_info(&self) -> (r: CommandInfo)
        ensures
            r.name@ == self.info().name@,
            r.description@ == self.info().description@,
            views(r.alias@) == views(self.info().alias@),
    {
        self.info.duplicate()
    }

    /// Everyone may tag.
    fn guards(&self) -> (r: Vec<Guard>)
        ensures
            r@.len() == 0,
    {
        Vec::new()
    }
}

/// Adds `>hug` to a registry; returns its number and the command.
pub fn register_hug(manager: &mut CommandManager) -> (r: (usize, Tag))
    requires
        old(manager).wf(),
        old(manager).count() < usize::MAX,
    ensures
        final(manager).wf(),
        r.0 == old(manager).count(),
        final(manager).count() == old(manager).count() + 1,
        r.1.style() == TagStyle::Hug,
        r.1.info().name@ == "hug"@,
        final(manager).info(r.0 as int).name@ == "hug"@,
        final(manager).guards_of(r.0 as int).len() == 0,
        final(manager).info(r.0 as int).description@ == "Hug your friends."@,
        forall|k: Seq<char>| #[trigger] final(manager).lookup(k) == (if final(manager).info(
            r.0 as int,
        ).keys().contains(k) {
            Some(r.0 as nat)
        } else {
            old(manager).lookup(k)
        }),
{
    let tag = Tag::new("hug", "Hug your friends.", TagStyle::Hug);
    let id = manager.add_command(tag.command_info(), tag.guards());
    (id, tag)
}

/// Adds `>kiss` to a registry; returns its number and the command.
pub fn register_kiss(manager: &mut CommandManager) -> (r: (usize, Tag))
    requires
        old(manager).wf(),
        old(manager).count() < usize::MAX,
    ensures
        final(manager).wf(),
        r.0 == old(manager).count(),
        final(manager).count() == old(manager).count() + 1,
        r.1.style() == TagStyle::Kiss,
        r.1.info().name@ == "kiss"@,
        final(manager).info(r.0 as int).name@ == "kiss"@,
        final(manager).guards_of(r.0 as int).len() == 0,
        final(manager).info(r.0 as int).description@ == "Kiss your friends."@,
        forall|k: Seq<char>| #[trigger] final(manager).lookup(k) == (if final(manager).info(
            r.0 as int,
        ).keys().contains(k) {
            Some(r.0 as nat)
        } else {
            old(manager).lookup(k)
        }),
{
    let tag = Tag::new("kiss", "Kiss your friends.", TagStyle::Kiss);
    let id = manager.add_command(tag.command_info(), tag.guards());
    (id, tag)
}

} // verus!
