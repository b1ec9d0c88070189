//! Automatic replies to chat lines that open with a watched word.
use vstd::prelude::*;
use crate::command::find_last;
use crate::text::{chars_of, lowercase, lowercase_of, new_string, push_chars, views};
use crate::time::{clock_nanos, cooldown_over, Cooldown};

verus! {

/// The text of `s` before its first space (all of `s` when it has none).
pub open spec fn first_piece(s: Seq<char>) -> Seq<char>
    decreases s.len(),
{
    if s.len() == 0 {
        s
    } else if s[0] == ' ' {
        Seq::<char>::empty()
    } else {
        seq![s[0]] + first_piece(s.drop_first())
    }
}

proof fn lemma_first_piece_take(s: Seq<char>, i: int)
    requires
        0 <= i <= s.len(),
        forall|j: int| 0 <= j < i ==> s[j] != ' ',
    ensures
        first_piece(s) == s.take(i) + first_piece(s.skip(i)),
    decreases i,
{
    if i == 0 {
        assert(s.skip(0) =~= s);
        assert(s.take(0) + first_piece(s) =~= first_piece(s));
    } else {
        let t = s.drop_first();
        assert forall|j: int| 0 <= j < i - 1 implies t[j] != ' ' by {
            assert(t[j] == s[j + 1]);
        }
        lemma_first_piece_take(t, i - 1);
        assert(t.skip(i - 1) =~= s.skip(i));
        assert(seq![s[0]] + t.take(i - 1) =~= s.take(i));
        assert(seq![s[0]] + (t.take(i - 1) + first_piece(t.skip(i - 1))) =~= s.take(i) + first_piece(
            s.skip(i),
        ));
    }
}

/// The text of a line before its first space.
pub fn first_word(text: &str) -> (r: String)
    ensures
        r@ == first_piece(text@),
{
    let cs = chars_of(text);
    let n = cs.len();
    let mut i: usize = 0;
    while i < n && cs[i] != ' '
        invariant
            i <= n == cs@.len(),
            forall|j: int| 0 <= j < i ==> cs@[j] != ' ',
        decreases n - i,
    {
        i = i + 1;
    }
    proof {
        lemma_first_piece_take(cs@, i as int);
        if i < n {
            assert(cs@.skip(i as int)[0] == ' ');
        }
        assert(cs@.take(i as int) + first_piece(cs@.skip(i as int)) =~= cs@.subrange(0, i as int));
    }
    let mut out = String::new();
    push_chars(&mut out, &cs, 0, i);
    assert(Seq::<char>::empty() + cs@.subrange(0, i as int) =~= cs@.subrange(0, i as int));
    out
}

/// What the watcher made of a chat line.
pub enum WatchOutcome {
    /// The line does not open with a watched word.
    Ignored,
    /// It does, but the word's cooldown is not over; nothing is sent.
    Cooling,
    /// It does and the cooldown was over: send this reply.
    Reply(String),
}

/// Watched words, each with a reply and a cooldown of `delay`
/// milliseconds. A word is looked up in the lower-case form of a line's
/// first word; words are stored as given.
pub struct Watcher {
    keys: Vec<String>,
    replies: Vec<String>,
    cooldowns: Vec<Cooldown>,
    delay: u128,
}

impl Watcher {
    pub closed spec fn wf(&self) -> bool {
        &&& self.keys@.len() == self.replies@.len()
        &&& self.keys@.len() == self.cooldowns@.len()
    }

    /// The cooldown of every watched word, in milliseconds.
    pub closed spec fn delay(&self) -> nat {
        self.delay as nat
    }

    /// The reply to the word `k` and the instant its cooldown was last
    /// reset, if `k` is watched.
    pub closed spec fn entry(&self, k: Seq<char>) -> Option<(Seq<char>, int)> {
        let i = find_last(views(self.keys@), k);
        if i >= 0 {
            Some((self.replies@[i]@, self.cooldowns@[i].last()))
        } else {
            None
        }
    }

    pub fn new(delay: u128) -> (r: Watcher)
        ensures
            r.wf(),
            r.delay() == delay,
            forall|k: Seq<char>| #[trigger] r.entry(k) is None,
    {
        Watcher { keys: Vec::new(), replies: Vec::new(), cooldowns: Vec::new(), delay }
    }

    /// Watches the word `first`, with a fresh cooldown, replacing what it
    /// answered before.
    pub fn add_response(&mut self, first: &str, response: &str)
        requires
            old(self).wf(),
        ensures
            final(self).wf(),
            final(self).delay() == old(self).delay(),
            forall|k: Seq<char>| #[trigger] final(self).entry(k) == (if k == first@ {
                Some((response@, 0int))
            } else {
                old(self).entry(k)
            }),
    {
        let ghost old_keys = views(self.keys@);
        self.keys.push(new_string(first));
        self.replies.push(new_string(response));
        self.cooldowns.push(Cooldown::new());
        assert(views(self.keys@).drop_last() =~= old_keys);
        assert forall|k: Seq<char>| #[trigger] self.entry(k) == (if k == first@ {
            Some((response@, 0int))
        } else {
            old(self).entry(k)
        }) by {
            crate::command::lemma_find_last_range(old_keys, k);
        }
    }

    /// Watches each word of `responses` in turn.
    pub fn add_responses(&mut self, responses: Vec<(&str, &str)>)
        requires
            old(self).wf(),
        ensures
            final(self).wf(),
            final(self).delay() == old(self).delay(),
            forall|k: Seq<char>| #[trigger] final(self).entry(k) == (if last_pair_with_key(responses@, k) >= 0 {
                Some((responses@[last_pair_with_key(responses@, k)].1@, 0int))
            } else {
                old(self).entry(k)
            }),
    {
        let mut i: usize = 0;
        while i < responses.len()
            invariant
                self.wf(),
                i <= responses@.len(),
                self.delay() == old(self).delay(),
                forall|k: Seq<char>| #[trigger] self.entry(k) == (if last_pair_with_key(responses@.take(i as int), k) >= 0 {
                    Some((responses@.take(i as int)[last_pair_with_key(responses@.take(i as int), k)].1@, 0int))
                } else {
                    old(self).entry(k)
                }),
            decreases responses@.len() - i,
        {
            let (first, response) = responses[i];
            self.add_response(first, response);
            proof {
                assert(responses@.take(i + 1).drop_last() =~= responses@.take(i as int));
                lemma_last_pair_bounds(responses@.take(i as int), first@);
            }
            i = i + 1;
            proof {
                assert forall|k: Seq<char>| #[trigger] self.entry(k) == (if last_pair_with_key(responses@.take(i as int), k) >= 0 {
                    Some((responses@.take(i as int)[last_pair_with_key(responses@.take(i as int), k)].1@, 0int))
                } else {
                    old(self).entry(k)
                }) by {
                    lemma_last_pair_bounds(responses@.take(i - 1), k);
                    let p = last_pair_with_key(responses@.take(i - 1), k);
                    if p >= 0 {
                        assert(responses@.take(i as int)[p] == responses@.take(i - 1)[p]);
                    }
                }
            }
        }
        assert(responses@.take(responses@.len() as int) =~= responses@);
    }

    /// Handles a chat line at the instant `now`: the lower-case form of the
    /// line's first word is looked up; if it is watched and its cooldown is
    /// over, the cooldown is reset at `now` and its reply is to be sent.
    pub fn on_at(&mut self, text: &str, now: i128) -> (r: WatchOutcome)
        requires
            old(self).wf(),
        ensures
            final(self).wf(),
            final(self).delay() == old(self).delay(),
            handled(*old(self), *final(self), text@, now as int, r),
    {
        let word = first_word(text);
        let key = lowercase(word.as_str());
        let ghost ks = views(self.keys@);
        let found = crate::command::position_of_last(&self.keys, &key);
        proof {
            crate::command::lemma_find_last_range(ks, key@);
        }
        match found {
            None => WatchOutcome::Ignored,
            Some(i) => {
                if self.cooldowns[i].cooldown_passed_at(self.delay, now) {
                    assert forall|k: Seq<char>| k != key@ implies #[trigger] self.entry(k) == old(self).entry(k) by {
                        crate::command::lemma_find_last_bounds(ks, k);
                        crate::command::lemma_find_last_bounds(ks, key@);
                    }
                    WatchOutcome::Reply(self.replies[i].clone())
                } else {
                    assert forall|k: Seq<char>| k != key@ implies #[trigger] self.entry(k) == old(self).entry(k) by {
                        crate::command::lemma_find_last_bounds(ks, k);
                        crate::command::lemma_find_last_bounds(ks, key@);
                    }
                    WatchOutcome::Cooling
                }
            },
        }
    }

    /// `on_at` at the current time.
    pub fn on(&mut self, text: &str) -> (r: WatchOutcome)
        requires
            old(self).wf(),
        ensures
            final(self).wf(),
            final(self).delay() == old(self).delay(),
            exists|now: i128| #[trigger] handled(*old(self), *final(self), text@, now as int, r),
    {
        let now = clock_nanos();
        self.on_at(text, now)
    }
}

/// How a watcher in state `before` handles the line `text` at the instant
/// `now`, answering `r` and ending in state `after`: the lower-case form of
/// the line's first word is looked up; if it is watched and its cooldown is
/// over, the reply is sent and the cooldown reset at `now`; the entries of
/// all other words stay as they were.
pub open spec fn handled(before: Watcher, after: Watcher, text: Seq<char>, now: int, r: WatchOutcome) -> bool {
    let key = lowercase_of(first_piece(text));
    &&& match before.entry(key) {
        None => r is Ignored && after.entry(key) == before.entry(key),
        Some((reply, last)) => if cooldown_over(last, before.delay(), now) {
            &&& r matches WatchOutcome::Reply(s) && s@ == reply
            &&& after.entry(key) == Some((reply, now))
        } else {
            &&& r is Cooling
            &&& after.entry(key) == before.entry(key)
        },
    }
    &&& forall|k: Seq<char>| k != key ==> #[trigger] after.entry(k) == before.entry(k)
}

/// The position in `pairs` of the last pair whose word is `k`, or -1.
pub open spec fn last_pair_with_key(pairs: Seq<(&str, &str)>, k: Seq<char>) -> int
    decreases pairs.len(),
{
    if pairs.len() == 0 {
        -1
    } else if pairs.last().0@ == k {
        pairs.len() - 1
    } else {
        last_pair_with_key(pairs.drop_last(), k)
    }
}

proof fn lemma_last_pair_bounds(pairs: Seq<(&str, &str)>, k: Seq<char>)
    ensures
        -1 <= last_pair_with_key(pairs, k) < pairs.len(),
    decreases pairs.len(),
{
    if pairs.len() > 0 {
        lemma_last_pair_bounds(pairs.drop_last(), k);
    }
}

/// The bot's watcher: a minute's cooldown per word, and its replies.
pub fn create_watcher() -> (r: Watcher)
    ensures
        r.wf(),
        r.delay() == 60000,
        r.entry("uuh"@) == Some(("wideuuh"@, 0int)),
        r.entry("creepin"@) == Some(("Creepin"@, 0int)),
        r.entry("ThugShaker"@) == Some(("We love ThugShaker ThugShaker"@, 0int)),
        r.entry("JaneRun"@) == Some(("Down bad lookUp"@, 0int)),
        r.entry("plague"@) == Some(("I love Vommy Mommy Lovegers"@, 0int)),
        r.entry("!play"@) == Some(("!play"@, 0int)),
        forall|k: Seq<char>|
            k != "uuh"@ && k != "creepin"@ && k != "ThugShaker"@ && k != "JaneRun"@ && k != "plague"@
                && k != "!play"@ ==> #[trigger] r.entry(k) is None,
{
    proof {
        reveal_strlit("uuh");
        reveal_strlit("creepin");
        reveal_strlit("ThugShaker");
        reveal_strlit("JaneRun");
        reveal_strlit("plague");
        reveal_strlit("!play");
    }
    let mut w = Watcher::new(60 * 1000);
    w.add_response("uuh", "wideuuh");
    w.add_response("creepin", "Creepin");
    w.add_response("ThugShaker", "We love ThugShaker ThugShaker");
    w.add_response("JaneRun", "Down bad lookUp");
    w.add_response("plague", "I love Vommy Mommy Lovegers");
    w.add_response("!play", "!play");
    assert("uuh"@.len() == 3 && "creepin"@.len() == 7 && "ThugShaker"@.len() == 10);
    assert("JaneRun"@.len() == 7 && "plague"@.len() == 6 && "!play"@.len() == 5);
    assert("creepin"@[0] == 'c' && "JaneRun"@[0] == 'J');
    w
}

} // verus!

verus! {

/// A watched word is answered at most once per delay: when two lines with
/// the same first word are both answered, at `first` and then at `second`,
/// the second comes at least `delay` milliseconds after the first.
pub proof fn lemma_reply_spacing(
    w0: Watcher,
    w1: Watcher,
    w2: Watcher,
    line1: Seq<char>,
    line2: Seq<char>,
    first: int,
    second: int,
    r1: WatchOutcome,
    r2: WatchOutcome,
)
    requires
        w0.delay() > 0,
        w1.delay() == w0.delay(),
        lowercase_of(first_piece(line1)) == lowercase_of(first_piece(line2)),
        handled(w0, w1, line1, first, r1),
        handled(w1, w2, line2, second, r2),
        r1 is Reply,
        r2 is Reply,
    ensures
        second >= first + w0.delay() * 1_000_000,
{
    let key = lowercase_of(first_piece(line1));
    crate::time::lemma_cooldown_spacing(w0.delay(), first, second);
}

/// A watched word answered at `first` is answered again by a line with the
/// same first word at any instant `second` that is the delay or more later.
pub proof fn lemma_answered_again(
    w0: Watcher,
    w1: Watcher,
    w2: Watcher,
    line1: Seq<char>,
    line2: Seq<char>,
    first: int,
    second: int,
    r1: WatchOutcome,
    r2: WatchOutcome,
)
    requires
        w1.delay() == w0.delay(),
        lowercase_of(first_piece(line1)) == lowercase_of(first_piece(line2)),
        handled(w0, w1, line1, first, r1),
        r1 is Reply,
        second >= first + w0.delay() * 1_000_000,
        handled(w1, w2, line2, second, r2),
    ensures
        r2 matches WatchOutcome::Reply(s) && r1 matches WatchOutcome::Reply(t) && s@ == t@,
{
    crate::time::lemma_cooldown_passes_again(w0.delay(), first, second);
}

/// A line whose first word is not watched is ignored and changes nothing.
pub proof fn lemma_unwatched_ignored(w0: Watcher, w1: Watcher, line: Seq<char>, now: int, r: WatchOutcome)
    requires
        w0.entry(lowercase_of(first_piece(line))) is None,
        handled(w0, w1, line, now, r),
    ensures
        r is Ignored,
        forall|k: Seq<char>| #[trigger] w1.entry(k) == w0.entry(k),
{
}

} // verus!
