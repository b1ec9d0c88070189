//! Commands, their registry, and the dispatch of chat lines to them.
use vstd::prelude::*;
use vstd::string::*;
use crate::args::Args;
use crate::guards::{ChatMessage, Guard};
use crate::text::{
    chars_of, copy_strings, has_prefix, lowercase, lowercase_of, new_string, push_chars,
    split_words, starts_with, views, words,
};

verus! {

/// What a command is called and what it does.
pub struct CommandInfo {
    pub name: String,
    pub description: String,
    pub alias: Vec<String>,
}

impl CommandInfo {
    /// The keys that a registry files the command under: its name and its
    /// aliases, in lower case.
    pub open spec fn keys(&self) -> Seq<Seq<char>> {
        seq![lowercase_of(self.name@)] + views(self.alias@).map_values(
            |a: Seq<char>| lowercase_of(a),
        )
    }

    /// A copy of this description.
    pub fn duplicate(&self) -> (r: CommandInfo)
        ensures
            r.name@ == self.name@,
            r.description@ == self.description@,
            views(r.alias@) == views(self.alias@),
    {
        CommandInfo {
            name: self.name.clone(),
            description: self.description.clone(),
            alias: copy_strings(&self.alias),
        }
    }
}

/// A chat command: its description and the guards on who may run it (a
/// command with guards runs for senders that pass at least one of them).
pub trait Command {
    fn command_info(&self) -> CommandInfo;

    /// By default a command has no guards: everyone may run it.
    fn guards(&self) -> (r: Vec<Guard>)
        default_ensures
            r@.len() == 0,
    {
        Vec::new()
    }
}

/// A command's answer: text to send to the channel.
pub struct StringResult(pub String);

impl StringResult {
    pub fn to_string(&self) -> (r: String)
        ensures
            r@ == self.0@,
    {
        self.0.clone()
    }
}

/// Turns a value into the text a command answers with.
pub trait IntoResult {
    fn into_result(self) -> StringResult;
}

impl IntoResult for String {
    fn into_result(self) -> (r: StringResult)
        ensures
            r.0@ == self@,
    {
        StringResult(self)
    }
}

impl<'a> IntoResult for &'a str {
    fn into_result(self) -> (r: StringResult)
        ensures
            r.0@ == self@,
    {
        StringResult(new_string(self))
    }
}

/// A command's answer when it has nothing to send.
pub struct NoResult;

/// The index of the last key equal to `k`, or -1 when there is none.
pub open spec fn find_last(keys: Seq<Seq<char>>, k: Seq<char>) -> int
    decreases keys.len(),
{
    if keys.len() == 0 {
        -1
    } else if keys.last() == k {
        keys.len() - 1
    } else {
        find_last(keys.drop_last(), k)
    }
}

pub(crate) proof fn lemma_find_last_bounds(keys: Seq<Seq<char>>, k: Seq<char>)
    ensures
        -1 <= find_last(keys, k) < keys.len(),
        find_last(keys, k) >= 0 ==> keys[find_last(keys, k)] == k,
        find_last(keys, k) == -1 <==> !keys.contains(k),
    decreases keys.len(),
{
    if keys.len() > 0 {
        lemma_find_last_bounds(keys.drop_last(), k);
        if keys.last() != k {
            if keys.contains(k) {
                let j = choose|j: int| 0 <= j < keys.len() && keys[j] == k;
                assert(keys.drop_last()[j] == k);
            }
            if keys.drop_last().contains(k) {
                let j = choose|j: int| 0 <= j < keys.len() - 1 && keys.drop_last()[j] == k;
                assert(keys[j] == k);
            }
        }
    }
}

/// The index of the last string in `keys` equal to `k`.
pub(crate) fn position_of_last(keys: &Vec<String>, k: &String) -> (r: Option<usize>)
    ensures
        r matches Some(i) ==> i == find_last(views(keys@), k@),
        r is None ==> find_last(views(keys@), k@) == -1,
{
    let ghost ks = views(keys@);
    let mut i = keys.len();
    assert(ks.take(ks.len() as int) =~= ks);
    while i > 0
        invariant
            i <= keys@.len(),
            ks == views(keys@),
            find_last(ks, k@) == find_last(ks.take(i as int), k@),
        decreases i,
    {
        if keys[i - 1] == *k {
            assert(ks.take(i as int).last() == k@);
            return Some(i - 1);
        }
        assert(ks.take(i as int).drop_last() =~= ks.take(i - 1));
        i = i - 1;
    }
    assert(ks.take(0) =~= Seq::<Seq<char>>::empty());
    None
}

/// Whether the guards let the sender through: a command without guards is
/// open to everyone, otherwise one passing guard is enough.
pub open spec fn guards_pass(guards: Seq<Guard>, login: Seq<char>, badges: Seq<Seq<char>>) -> bool {
    guards.len() == 0 || exists|i: int| 0 <= i < guards.len() && #[trigger] guards[i].allows(login, badges)
}

/// The registry of a bot's commands. Commands are numbered in the order in
/// which they were added; each is filed under its lower-case name and
/// aliases, and a later command takes over the keys that it shares with an
/// earlier one.
pub struct CommandManager {
    prefix: String,
    infos: Vec<CommandInfo>,
    guards: Vec<Vec<Guard>>,
    keys: Vec<String>,
    ids: Vec<usize>,
}

impl CommandManager {
    pub closed spec fn wf(&self) -> bool {
        &&& self.keys@.len() == self.ids@.len()
        &&& self.infos@.len() == self.guards@.len()
        &&& forall|j: int| 0 <= j < self.ids@.len() ==> #[trigger] self.ids@[j] < self.infos@.len()
    }

    /// The text that opens every command call.
    pub closed spec fn prefix(&self) -> Seq<char> {
        self.prefix@
    }

    /// How many commands were added.
    pub closed spec fn count(&self) -> nat {
        self.infos@.len()
    }

    /// The description of command `id`.
    pub closed spec fn info(&self, id: int) -> CommandInfo {
        self.infos@[id]
    }

    /// The guards of command `id`.
    pub closed spec fn guards_of(&self, id: int) -> Seq<Guard> {
        self.guards@[id]@
    }

    /// The command filed under the key `k`.
    pub closed spec fn lookup(&self, k: Seq<char>) -> Option<nat> {
        let i = find_last(views(self.keys@), k);
        if i >= 0 {
            Some(self.ids@[i] as nat)
        } else {
            None
        }
    }

    /// The command that a message calls, if it calls one: its first word
    /// opens with the prefix, the rest of that word is a key, and the
    /// sender passes the command's guards.
    pub open spec fn dispatch(&self, message: &ChatMessage) -> Option<nat> {
        let ws = words(message.text@);
        if ws.len() > 0 && starts_with(ws[0], self.prefix()) {
            match self.lookup(ws[0].skip(self.prefix().len() as int)) {
                Some(id) => if guards_pass(
                    self.guards_of(id as int),
                    message.sender_login@,
                    message.badge_names(),
                ) {
                    Some(id)
                } else {
                    None
                },
                None => None,
            }
        } else {
            None
        }
    }

    pub fn new(prefix: &str) -> (r: CommandManager)
        ensures
            r.wf(),
            r.prefix() == prefix@,
            r.count() == 0,
            forall|k: Seq<char>| #[trigger] r.lookup(k) is None,
    {
        CommandManager {
            prefix: new_string(prefix),
            infos: Vec::new(),
            guards: Vec::new(),
            keys: Vec::new(),
            ids: Vec::new(),
        }
    }

    fn file_key(&mut self, key: String, id: usize)
        requires
            old(self).wf(),
            id < old(self).count(),
        ensures
            final(self).wf(),
            final(self).prefix() == old(self).prefix(),
            final(self).count() == old(self).count(),
            forall|j: int| 0 <= j < old(self).count() ==> #[trigger] final(self).info(j) == old(self).info(j),
            forall|j: int| 0 <= j < old(self).count() ==> #[trigger] final(self).guards_of(j) == old(self).guards_of(j),
            forall|k: Seq<char>| #[trigger] final(self).lookup(k) == (if k == key@ {
                Some(id as nat)
            } else {
                old(self).lookup(k)
            }),
    {
        let ghost old_keys = views(self.keys@);
        let ghost kv = key@;
        self.keys.push(key);
        self.ids.push(id);
        assert(views(self.keys@) =~= old_keys.push(kv));
        assert forall|k: Seq<char>| #[trigger] self.lookup(k) == (if k == kv {
            Some(id as nat)
        } else {
            old(self).lookup(k)
        }) by {
            assert(views(self.keys@).drop_last() =~= old_keys);
            lemma_find_last_range(old_keys, k);
        }
    }

    /// Adds a command and returns its number. The command is filed under
    /// its lower-case name and aliases.
    pub fn add_command(&mut self, info: CommandInfo, guards: Vec<Guard>) -> (id: usize)
        requires
            old(self).wf(),
            old(self).count() < usize::MAX,
        ensures
            final(self).wf(),
            id == old(self).count(),
            final(self).count() == old(self).count() + 1,
            final(self).prefix() == old(self).prefix(),
            final(self).info(id as int) == info,
            final(self).guards_of(id as int) == guards@,
            forall|j: int| 0 <= j < old(self).count() ==> #[trigger] final(self).info(j) == old(self).info(j),
            forall|j: int| 0 <= j < old(self).count() ==> #[trigger] final(self).guards_of(j) == old(self).guards_of(j),
            forall|k: Seq<char>| #[trigger] final(self).lookup(k) == (if info.keys().contains(k) {
                Some(id as nat)
            } else {
                old(self).lookup(k)
            }),
    {
        let id = self.infos.len();
        let name_key = lowercase(info.name.as_str());
        let mut alias_keys: Vec<String> = Vec::new();
        let mut j: usize = 0;
        while j < info.alias.len()
            invariant
                j <= info.alias@.len(),
                alias_keys@.len() == j,
                forall|t: int| 0 <= t < j ==> (#[trigger] alias_keys@[t])@ == lowercase_of(info.alias@[t]@),
            decreases info.alias@.len() - j,
        {
            alias_keys.push(lowercase(info.alias[j].as_str()));
            j = j + 1;
        }
        let ghost all_keys = info.keys();
        assert(all_keys.len() == alias_keys@.len() + 1);
        self.infos.push(info);
        self.guards.push(guards);
        let ghost name_view = name_key@;
        let ghost mid = *self;
        self.file_key(name_key, id);
        assert(all_keys.take(1) =~= seq![name_view]);
        assert forall|k: Seq<char>| #[trigger] self.lookup(k) == (if all_keys.take(1).contains(k) {
            Some(id as nat)
        } else {
            old(self).lookup(k)
        }) by {
            assert(mid.lookup(k) == old(self).lookup(k));
            if k == name_view {
                assert(all_keys.take(1)[0] == k);
            }
        }
        let mut t: usize = 0;
        while t < alias_keys.len()
            invariant
                self.wf(),
                t <= alias_keys@.len(),
                all_keys.len() == alias_keys@.len() + 1,
                forall|u: int| 0 <= u < alias_keys@.len() ==> (#[trigger] alias_keys@[u])@ == all_keys[u + 1],
                self.count() == old(self).count() + 1,
                id == old(self).count(),
                self.prefix() == old(self).prefix(),
                self.info(id as int) == info,
                self.guards_of(id as int) == guards@,
                forall|j: int| 0 <= j < old(self).count() ==> #[trigger] self.info(j) == old(self).info(j),
                forall|j: int| 0 <= j < old(self).count() ==> #[trigger] self.guards_of(j) == old(self).guards_of(j),
                forall|k: Seq<char>| #[trigger] self.lookup(k) == (if all_keys.take(t + 1).contains(k) {
                    Some(id as nat)
                } else {
                    old(self).lookup(k)
                }),
            decreases alias_keys@.len() - t,
        {
            let key = alias_keys[t].clone();
            let ghost kv = key@;
            assert(kv == all_keys[t + 1]) by {
                assert(alias_keys@[t as int]@ == all_keys[t + 1]);
            }
            assert(all_keys.take(t + 2) =~= all_keys.take(t + 1).push(kv));
            self.file_key(key, id);
            assert forall|k: Seq<char>| #[trigger] all_keys.take(t + 2).contains(k) == (k == kv || all_keys.take(t + 1).contains(k)) by {
                if k == kv {
                    assert(all_keys.take(t + 2)[t + 1] == k);
                }
                if all_keys.take(t + 1).contains(k) {
                    let w = choose|w: int| 0 <= w < t + 1 && #[trigger] all_keys.take(t + 1)[w] == k;
                    assert(all_keys.take(t + 2)[w] == k);
                }
                if all_keys.take(t + 2).contains(k) && k != kv {
                    let w = choose|w: int| 0 <= w < t + 2 && #[trigger] all_keys.take(t + 2)[w] == k;
                    assert(all_keys.take(t + 1)[w] == k);
                }
            }
            t = t + 1;
        }
        assert(all_keys.take(all_keys.len() as int) =~= all_keys);
        id
    }

    /// Adds commands one after another and returns their numbers.
    pub fn add_commands(&mut self, commands: Vec<(CommandInfo, Vec<Guard>)>) -> (ids: Vec<usize>)
        requires
            old(self).wf(),
            old(self).count() + commands@.len() < usize::MAX,
        ensures
            final(self).wf(),
            final(self).count() == old(self).count() + commands@.len(),
            final(self).prefix() == old(self).prefix(),
            ids@.len() == commands@.len(),
            forall|j: int| 0 <= j < ids@.len() ==> #[trigger] ids@[j] == old(self).count() + j,
            forall|j: int| 0 <= j < commands@.len() ==> #[trigger] final(self).info(old(self).count() + j) == commands@[j].0,
            forall|j: int| 0 <= j < commands@.len() ==> #[trigger] final(self).guards_of(old(self).count() + j) == commands@[j].1@,
            forall|j: int| 0 <= j < old(self).count() ==> #[trigger] final(self).info(j) == old(self).info(j),
            forall|j: int| 0 <= j < old(self).count() ==> #[trigger] final(self).guards_of(j) == old(self).guards_of(j),
            forall|k: Seq<char>| #[trigger] final(self).lookup(k) == (if last_command_with_key(commands@, k) >= 0 {
                Some((old(self).count() + last_command_with_key(commands@, k)) as nat)
            } else {
                old(self).lookup(k)
            }),
            forall|k: Seq<char>| #[trigger] final(self).lookup(k) == added_one_by_one(
                old(self).lookup(k),
                old(self).count(),
                commands@,
                k,
            ),
    {
        let mut ids: Vec<usize> = Vec::new();
        let mut rest = commands;
        let ghost all = rest@;
        // The commands are taken from the back; reverse them first so that
        // they are added in order.
        let mut queue: Vec<(CommandInfo, Vec<Guard>)> = Vec::new();
        while rest.len() > 0
            invariant
                queue@.len() + rest@.len() == all.len(),
                rest@ == all.take(rest@.len() as int),
                forall|u: int| 0 <= u < queue@.len() ==> #[trigger] queue@[u] == all[all.len() - 1 - u],
            decreases rest@.len(),
        {
            let c = rest.pop().unwrap();
            queue.push(c);
        }
        let mut n: usize = 0;
        while queue.len() > 0
            invariant
                self.wf(),
                n + queue@.len() == all.len(),
                forall|u: int| 0 <= u < queue@.len() ==> #[trigger] queue@[u] == all[all.len() - 1 - u],
                self.count() == old(self).count() + n,
                old(self).count() + all.len() < usize::MAX,
                self.prefix() == old(self).prefix(),
                ids@.len() == n,
                forall|j: int| 0 <= j < n ==> #[trigger] ids@[j] == old(self).count() + j,
                forall|j: int| 0 <= j < n ==> #[trigger] self.info(old(self).count() + j) == all[j].0,
                forall|j: int| 0 <= j < n ==> #[trigger] self.guards_of(old(self).count() + j) == all[j].1@,
                forall|j: int| 0 <= j < old(self).count() ==> #[trigger] self.info(j) == old(self).info(j),
                forall|j: int| 0 <= j < old(self).count() ==> #[trigger] self.guards_of(j) == old(self).guards_of(j),
                forall|k: Seq<char>| #[trigger] self.lookup(k) == (if last_command_with_key(all.take(n as int), k) >= 0 {
                    Some((old(self).count() + last_command_with_key(all.take(n as int), k)) as nat)
                } else {
                    old(self).lookup(k)
                }),
            decreases queue@.len(),
        {
            let (info, guards) = queue.pop().unwrap();
            assert((info, guards) == all[n as int]);
            let id = self.add_command(info, guards);
            ids.push(id);
            assert(all.take(n + 1).drop_last() =~= all.take(n as int));
            n = n + 1;
        }
        assert(all.take(n as int) =~= all);
        assert forall|k: Seq<char>| #[trigger] self.lookup(k) == added_one_by_one(
            old(self).lookup(k),
            old(self).count(),
            all,
            k,
        ) by {
            lemma_one_by_one_is_last_wins(old(self).lookup(k), old(self).count(), all, k);
        }
        ids
    }

    /// The command that `message` calls and its arguments (the words after
    /// the first), or `None` when the message calls no command.
    pub fn on(&self, message: &ChatMessage) -> (r: Option<(usize, Args)>)
        requires
            self.wf(),
        ensures
            r is Some <==> self.dispatch(message) is Some,
            r matches Some((id, args)) ==> {
                &&& self.dispatch(message) == Some(id as nat)
                &&& args.items() == words(message.text@).skip(1)
                &&& args.position() == 0
            },
    {
        let mut ws = split_words(message.text.as_str());
        let ghost wv = words(message.text@);
        if ws.len() == 0 {
            return None;
        }
        assert(ws@[0]@ == wv[0]);
        let first = chars_of(ws[0].as_str());
        let prefix = chars_of(self.prefix.as_str());
        if !has_prefix(&first, &prefix) {
            return None;
        }
        let mut key = String::new();
        push_chars(&mut key, &first, prefix.len(), first.len());
        assert(key@ =~= wv[0].skip(self.prefix().len() as int));
        let found = position_of_last(&self.keys, &key);
        let idx = match found {
            Some(i) => i,
            None => {
                return None;
            },
        };
        proof {
            lemma_find_last_bounds(views(self.keys@), key@);
        }
        let id = self.ids[idx];
        let guards = &self.guards[id];
        let args = Args::new(ws.split_off(1));
        assert(views(ws@) =~= seq![wv[0]]);
        if guards.len() > 0 {
            let mut passed = false;
            let mut g: usize = 0;
            while g < guards.len()
                invariant
                    g <= guards@.len(),
                    passed == exists|i: int| 0 <= i < g && #[trigger] guards@[i].allows(
                        message.sender_login@,
                        message.badge_names(),
                    ),
                decreases guards@.len() - g,
            {
                if guards[g].check(message, &args) {
                    passed = true;
                }
                g = g + 1;
            }
            if !passed {
                return None;
            }
        }
        Some((id, args))
    }
}

/// The position in `commands` of the last command filed under `k`, or -1.
pub open spec fn last_command_with_key(commands: Seq<(CommandInfo, Vec<Guard>)>, k: Seq<char>) -> int
    decreases commands.len(),
{
    if commands.len() == 0 {
        -1
    } else if commands.last().0.keys().contains(k) {
        commands.len() - 1
    } else {
        last_command_with_key(commands.drop_last(), k)
    }
}

/// What the key `k` finds after `commands` are added one after another to
/// a registry in which it found `before` and which held `count` commands:
/// each command in turn takes over the keys it is filed under.
pub open spec fn added_one_by_one(
    before: Option<nat>,
    count: nat,
    commands: Seq<(CommandInfo, Vec<Guard>)>,
    k: Seq<char>,
) -> Option<nat>
    decreases commands.len(),
{
    if commands.len() == 0 {
        before
    } else {
        let after_first = if commands[0].0.keys().contains(k) {
            Some(count)
        } else {
            before
        };
        added_one_by_one(after_first, count + 1, commands.drop_first(), k)
    }
}

proof fn lemma_last_command_drop_first(commands: Seq<(CommandInfo, Vec<Guard>)>, k: Seq<char>)
    requires
        commands.len() > 0,
    ensures
        last_command_with_key(commands, k) == (if last_command_with_key(commands.drop_first(), k) >= 0 {
            1 + last_command_with_key(commands.drop_first(), k)
        } else if commands[0].0.keys().contains(k) {
            0
        } else {
            -1
        }),
    decreases commands.len(),
{
    lemma_last_command_bounds(commands.drop_first(), k);
    if commands.len() > 1 {
        let t = commands.drop_last();
        lemma_last_command_drop_first(t, k);
        assert(t.drop_first() =~= commands.drop_first().drop_last());
        assert(commands.drop_first().last() == commands.last());
        assert(t[0] == commands[0]);
    } else {
        assert(commands.drop_first().len() == 0);
        assert(commands.drop_last().len() == 0);
        assert(commands.last() == commands[0]);
        assert(last_command_with_key(commands.drop_last(), k) == -1);
    }
}

proof fn lemma_last_command_bounds(commands: Seq<(CommandInfo, Vec<Guard>)>, k: Seq<char>)
    ensures
        -1 <= last_command_with_key(commands, k) < commands.len(),
    decreases commands.len(),
{
    if commands.len() > 0 {
        lemma_last_command_bounds(commands.drop_last(), k);
    }
}

/// Adding commands one by one leaves every key with the last of them that
/// is filed under it, or with what it found before when none is.
pub proof fn lemma_one_by_one_is_last_wins(
    before: Option<nat>,
    count: nat,
    commands: Seq<(CommandInfo, Vec<Guard>)>,
    k: Seq<char>,
)
    ensures
        added_one_by_one(before, count, commands, k) == (if last_command_with_key(commands, k) >= 0 {
            Some((count + last_command_with_key(commands, k)) as nat)
        } else {
            before
        }),
    decreases commands.len(),
{
    if commands.len() > 0 {
        let after_first = if commands[0].0.keys().contains(k) {
            Some(count)
        } else {
            before
        };
        lemma_one_by_one_is_last_wins(after_first, count + 1, commands.drop_first(), k);
        lemma_last_command_drop_first(commands, k);
    }
}

pub(crate) proof fn lemma_find_last_range(keys: Seq<Seq<char>>, k: Seq<char>)
    ensures
        -1 <= find_last(keys, k) < keys.len(),
{
    lemma_find_last_bounds(keys, k);
}

} // verus!

verus! {

/// A command is filed under its lower-case name and each of its lower-case
/// aliases.
pub proof fn lemma_keys_cover_name_and_aliases(info: CommandInfo)
    ensures
        info.keys().contains(lowercase_of(info.name@)),
        forall|j: int|
            0 <= j < info.alias@.len() ==> info.keys().contains(
                lowercase_of(#[trigger] info.alias@[j]@),
            ),
{
    assert(info.keys()[0] == lowercase_of(info.name@));
    assert forall|j: int| 0 <= j < info.alias@.len() implies info.keys().contains(
        lowercase_of(#[trigger] info.alias@[j]@),
    ) by {
        assert(info.keys()[j + 1] == lowercase_of(info.alias@[j]@));
    }
}

/// A message whose first word is the prefix followed by a key runs the
/// command filed under that key, when the command has no guards or the
/// sender passes one of them.
pub proof fn lemma_dispatch_by_key(
    manager: CommandManager,
    message: ChatMessage,
    key: Seq<char>,
    id: nat,
)
    requires
        words(message.text@).len() > 0,
        words(message.text@)[0] == manager.prefix() + key,
        manager.lookup(key) == Some(id),
        guards_pass(manager.guards_of(id as int), message.sender_login@, message.badge_names()),
    ensures
        manager.dispatch(&message) == Some(id),
{
    let w = words(message.text@)[0];
    assert(w.subrange(0, manager.prefix().len() as int) =~= manager.prefix());
    assert(w.skip(manager.prefix().len() as int) =~= key);
}

/// A message whose first word does not open with the prefix runs nothing.
pub proof fn lemma_no_prefix_no_dispatch(manager: CommandManager, message: ChatMessage)
    requires
        words(message.text@).len() == 0 || !starts_with(words(message.text@)[0], manager.prefix()),
    ensures
        manager.dispatch(&message) is None,
{
}

/// A command with guards is refused to a sender who passes none of them.
pub proof fn lemma_guards_refuse(manager: CommandManager, message: ChatMessage, id: nat)
    requires
        words(message.text@).len() > 0,
        starts_with(words(message.text@)[0], manager.prefix()),
        manager.lookup(words(message.text@)[0].skip(manager.prefix().len() as int)) == Some(id),
        manager.guards_of(id as int).len() > 0,
        forall|i: int|
            0 <= i < manager.guards_of(id as int).len() ==> !(#[trigger] manager.guards_of(
                id as int,
            )[i]).allows(message.sender_login@, message.badge_names()),
    ensures
        manager.dispatch(&message) is None,
{
}

} // verus!
