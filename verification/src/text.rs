//! Character-level text handling: word splitting, trimming, number
//! formatting and parsing, and the small string helpers that the chat
//! commands are built from.
use vstd::prelude::*;
use vstd::string::*;

verus! {

// ---------------------------------------------------------------------------
// Specifications
// ---------------------------------------------------------------------------

/// The views of a sequence of strings.
pub open spec fn views(v: Seq<String>) -> Seq<Seq<char>> {
    v.map_values(|s: String| s@)
}

pub open spec fn is_ascii_char(c: char) -> bool {
    (c as u32) < 128
}

/// A character with the Unicode `White_Space` property.
pub open spec fn is_whitespace(c: char) -> bool {
    let u = c as u32;
    ||| 9 <= u <= 13
    ||| u == 32
    ||| u == 0x85
    ||| u == 0xA0
    ||| u == 0x1680
    ||| 0x2000 <= u <= 0x200A
    ||| u == 0x2028
    ||| u == 0x2029
    ||| u == 0x202F
    ||| u == 0x205F
    ||| u == 0x3000
}

/// `s` without its leading whitespace.
pub open spec fn trim_start(s: Seq<char>) -> Seq<char>
    decreases s.len(),
{
    if s.len() > 0 && is_whitespace(s[0]) {
        trim_start(s.drop_first())
    } else {
        s
    }
}

/// `s` without its trailing whitespace.
pub open spec fn trim_end(s: Seq<char>) -> Seq<char>
    decreases s.len(),
{
    if s.len() > 0 && is_whitespace(s.last()) {
        trim_end(s.drop_last())
    } else {
        s
    }
}

/// `s` without leading and trailing whitespace.
pub open spec fn trim(s: Seq<char>) -> Seq<char> {
    trim_end(trim_start(s))
}

/// The ASCII characters of `s`, in order.
pub open spec fn keep_ascii(s: Seq<char>) -> Seq<char>
    decreases s.len(),
{
    if s.len() == 0 {
        s
    } else if is_ascii_char(s.last()) {
        keep_ascii(s.drop_last()).push(s.last())
    } else {
        keep_ascii(s.drop_last())
    }
}

/// The pieces of `s` between single spaces; there is always at least one
/// piece, and two adjacent spaces give an empty piece.
pub open spec fn split_spaces(s: Seq<char>) -> Seq<Seq<char>>
    decreases s.len(),
{
    if s.len() == 0 {
        seq![Seq::<char>::empty()]
    } else if s.last() == ' ' {
        split_spaces(s.drop_last()).push(Seq::<char>::empty())
    } else {
        let p = split_spaces(s.drop_last());
        if p.len() == 0 {
            seq![seq![s.last()]]
        } else {
            p.update(p.len() - 1, p.last().push(s.last()))
        }
    }
}

/// A piece of a chat line as a command sees it: trimmed, then reduced to
/// its ASCII characters.
pub open spec fn clean_word(piece: Seq<char>) -> Seq<char> {
    keep_ascii(trim(piece))
}

/// The cleaned pieces that are not empty.
pub open spec fn clean_words(pieces: Seq<Seq<char>>) -> Seq<Seq<char>>
    decreases pieces.len(),
{
    if pieces.len() == 0 {
        Seq::<Seq<char>>::empty()
    } else if clean_word(pieces.last()).len() == 0 {
        clean_words(pieces.drop_last())
    } else {
        clean_words(pieces.drop_last()).push(clean_word(pieces.last()))
    }
}

/// The words of a chat line.
pub open spec fn words(s: Seq<char>) -> Seq<Seq<char>> {
    clean_words(split_spaces(s))
}

/// The character of a digit in base sixteen or below, lower case.
pub open spec fn digit_char(d: nat) -> char {
    if d < 10 {
        ((48 + d) as u8) as char
    } else {
        ((87 + d) as u8) as char
    }
}

/// The digits of `n` in base `base`, most significant first, without
/// leading zeros (zero itself is `"0"`).
pub open spec fn digits(n: nat, base: nat) -> Seq<char>
    decreases n,
{
    if base < 2 || n < base {
        seq![digit_char(n % 16)]
    } else {
        proof {
            assert(n / base < n) by (nonlinear_arith)
                requires
                    base >= 2,
                    n >= base,
            ;
        }
        digits(n / base, base).push(digit_char(n % base))
    }
}

/// The decimal form of an integer, with a leading `-` when it is negative.
pub open spec fn decimal(n: int) -> Seq<char> {
    if n < 0 {
        seq!['-'] + digits((-n) as nat, 10)
    } else {
        digits(n as nat, 10)
    }
}

/// The lower-case hexadecimal form of a number, as `{:x}` writes it.
pub open spec fn hex(n: nat) -> Seq<char> {
    digits(n, 16)
}

pub open spec fn is_digit(c: char) -> bool {
    48 <= (c as u32) <= 57
}

pub open spec fn all_digits(s: Seq<char>) -> bool {
    forall|i: int| 0 <= i < s.len() ==> is_digit(#[trigger] s[i])
}

/// The value of a string of decimal digits.
pub open spec fn digits_value(s: Seq<char>) -> nat
    decreases s.len(),
{
    if s.len() == 0 {
        0
    } else {
        digits_value(s.drop_last()) * 10 + ((s.last() as u32) - 48) as nat
    }
}

/// Whether `s` opens with a sign character.
pub open spec fn has_sign(s: Seq<char>) -> bool {
    s.len() > 0 && (s[0] == '-' || s[0] == '+')
}

/// The digits of a decimal integer, after its sign.
pub open spec fn unsigned_part(s: Seq<char>) -> Seq<char> {
    if has_sign(s) {
        s.drop_first()
    } else {
        s
    }
}

/// The integer that a decimal text denotes, sign included.
pub open spec fn signed_value(s: Seq<char>) -> int {
    if s.len() > 0 && s[0] == '-' {
        -(digits_value(unsigned_part(s)) as int)
    } else {
        digits_value(unsigned_part(s)) as int
    }
}

/// Whether `s` reads as an `i64`: an optional `+` or `-`, then at least
/// one decimal digit, and nothing else, with a value in range.
pub open spec fn parses_as_i64(s: Seq<char>) -> bool {
    &&& unsigned_part(s).len() > 0
    &&& all_digits(unsigned_part(s))
    &&& i64::MIN <= signed_value(s) <= i64::MAX
}

/// `prefix` is a prefix of `s`.
pub open spec fn starts_with(s: Seq<char>, prefix: Seq<char>) -> bool {
    prefix.len() <= s.len() && s.subrange(0, prefix.len() as int) == prefix
}

/// The lower-case form of a text, as `str::to_lowercase` computes it
/// (Unicode case mapping; see `lowercase`).
pub uninterp spec fn lowercase_of(s: Seq<char>) -> Seq<char>;

// ---------------------------------------------------------------------------
// Lemmas
// ---------------------------------------------------------------------------

proof fn lemma_split_nonempty(s: Seq<char>)
    ensures
        split_spaces(s).len() >= 1,
    decreases s.len(),
{
    if s.len() > 0 {
        lemma_split_nonempty(s.drop_last());
    }
}

proof fn lemma_trim_start_skip(s: Seq<char>, i: int)
    requires
        0 <= i <= s.len(),
        forall|j: int| 0 <= j < i ==> is_whitespace(#[trigger] s[j]),
        i == s.len() || !is_whitespace(s[i]),
    ensures
        trim_start(s) == s.subrange(i, s.len() as int),
    decreases i,
{
    if i == 0 {
        assert(s.subrange(0, s.len() as int) =~= s);
    } else {
        let t = s.drop_first();
        assert forall|j: int| 0 <= j < i - 1 implies is_whitespace(#[trigger] t[j]) by {
            assert(t[j] == s[j + 1]);
        }
        lemma_trim_start_skip(t, i - 1);
        assert(t.subrange(i - 1, t.len() as int) =~= s.subrange(i, s.len() as int));
    }
}

proof fn lemma_trim_end_take(s: Seq<char>, k: int)
    requires
        0 <= k <= s.len(),
        forall|j: int| k <= j < s.len() ==> is_whitespace(#[trigger] s[j]),
        k == 0 || !is_whitespace(s[k - 1]),
    ensures
        trim_end(s) == s.subrange(0, k),
    decreases s.len() - k,
{
    if k == s.len() {
        assert(s.subrange(0, k) =~= s);
    } else {
        let t = s.drop_last();
        assert forall|j: int| k <= j < t.len() implies is_whitespace(#[trigger] t[j]) by {
            assert(t[j] == s[j]);
        }
        lemma_trim_end_take(t, k);
        assert(t.subrange(0, k) =~= s.subrange(0, k));
    }
}

pub proof fn lemma_digits_value_monotone(s: Seq<char>, i: int)
    requires
        0 <= i <= s.len(),
        all_digits(s),
    ensures
        digits_value(s.take(i)) <= digits_value(s),
    decreases s.len() - i,
{
    if i < s.len() {
        let t = s.drop_last();
        assert(all_digits(t)) by {
            assert forall|j: int| 0 <= j < t.len() implies is_digit(#[trigger] t[j]) by {
                assert(t[j] == s[j]);
            }
        }
        lemma_digits_value_monotone(t, i);
        assert(t.take(i) =~= s.take(i));
    } else {
        assert(s.take(i) =~= s);
    }
}

// ---------------------------------------------------------------------------
// Trusted std calls
// ---------------------------------------------------------------------------

/// `String::push`: appends one character to the end of the string.
#[verifier::external_body]
pub(crate) fn push_char(s: &mut String, c: char)
    ensures
        final(s)@ == old(s)@.push(c),
{
    s.push(c);
}

/// `str::to_lowercase`: the contract only names the result; it is the
/// Unicode lower-case mapping of the whole text, which is not written out
/// here.
#[verifier::external_body]
pub(crate) fn lowercase(s: &str) -> (res: String)
    ensures
        res@ == lowercase_of(s@),
{
    s.to_lowercase()
}

// ---------------------------------------------------------------------------
// Executable helpers
// ---------------------------------------------------------------------------

/// The characters of a text.
pub fn chars_of(s: &str) -> (r: Vec<char>)
    ensures
        r@ == s@,
{
    let mut v: Vec<char> = Vec::new();
    for c in it: s.chars()
        invariant
            v@ == it.seq().take(it.index() as int),
            it.seq() == s@,
    {
        v.push(c);
    }
    v
}

/// Appends a run of characters to a string.
pub fn push_chars(s: &mut String, cs: &Vec<char>, from: usize, to: usize)
    requires
        from <= to <= cs@.len(),
    ensures
        final(s)@ == old(s)@ + cs@.subrange(from as int, to as int),
{
    let mut i = from;
    while i < to
        invariant
            from <= i <= to <= cs@.len(),
            s@ == old(s)@ + cs@.subrange(from as int, i as int),
        decreases to - i,
    {
        push_char(s, cs[i]);
        i = i + 1;
        assert(cs@.subrange(from as int, i as int) =~= cs@.subrange(from as int, (i - 1) as int).push(
            cs@[i - 1],
        ));
    }
}

/// Appends a text to a string.
pub fn push_str(s: &mut String, t: &str)
    ensures
        final(s)@ == old(s)@ + t@,
{
    s.append(t);
}

/// `item`, with an `s` added unless `count` is exactly one.
pub fn multiple(item: &str, count: i64) -> (res: String)
    ensures
        res@ == (if count == 1 {
            item@
        } else {
            item@ + seq!['s']
        }),
{
    let s = String::from_str(item);
    if count == 1 {
        s
    } else {
        proof {
            reveal_strlit("s");
        }
        s.concat("s")
    }
}

/// A new string with the given characters.
pub fn new_string(t: &str) -> (r: String)
    ensures
        r@ == t@,
{
    String::from_str(t)
}

/// Whether two texts are equal.
pub fn text_eq(a: &str, b: &str) -> (r: bool)
    ensures
        r == (a@ == b@),
{
    let x = String::from_str(a);
    let y = String::from_str(b);
    x == y
}

/// A copy of a list of strings.
pub fn copy_strings(v: &Vec<String>) -> (r: Vec<String>)
    ensures
        views(r@) == views(v@),
        r@.len() == v@.len(),
{
    let mut out: Vec<String> = Vec::new();
    let mut i: usize = 0;
    while i < v.len()
        invariant
            i <= v@.len(),
            out@.len() == i,
            forall|j: int| 0 <= j < i ==> (#[trigger] out@[j])@ == v@[j]@,
        decreases v@.len() - i,
    {
        out.push(v[i].clone());
        i = i + 1;
    }
    assert(views(out@) =~= views(v@));
    out
}

/// Whether `prefix` is a prefix of `s`.
pub fn has_prefix(s: &Vec<char>, prefix: &Vec<char>) -> (r: bool)
    ensures
        r == starts_with(s@, prefix@),
{
    if prefix.len() > s.len() {
        return false;
    }
    let mut i: usize = 0;
    while i < prefix.len()
        invariant
            prefix@.len() <= s@.len(),
            i <= prefix@.len(),
            forall|j: int| 0 <= j < i ==> s@[j] == prefix@[j],
        decreases prefix@.len() - i,
    {
        if s[i] != prefix[i] {
            assert(s@.subrange(0, prefix@.len() as int)[i as int] != prefix@[i as int]);
            return false;
        }
        i = i + 1;
    }
    assert(s@.subrange(0, prefix@.len() as int) =~= prefix@);
    true
}

pub fn is_whitespace_char(c: char) -> (r: bool)
    ensures
        r == is_whitespace(c),
{
    let u = c as u32;
    (9 <= u && u <= 13) || u == 32 || u == 0x85 || u == 0xA0 || u == 0x1680 || (0x2000 <= u && u
        <= 0x200A) || u == 0x2028 || u == 0x2029 || u == 0x202F || u == 0x205F || u == 0x3000
}

/// The cleaned form of the piece `cs`: trimmed, then reduced to
/// its ASCII characters.
pub fn clean_piece(cs: &Vec<char>) -> (r: String)
    ensures
        r@ == clean_word(cs@),
{
    let n = cs.len();
    let mut a: usize = 0;
    while a < n && is_whitespace_char(cs[a])
        invariant
            a <= n == cs@.len(),
            forall|j: int| 0 <= j < a ==> is_whitespace(#[trigger] cs@[j]),
        decreases n - a,
    {
        a = a + 1;
    }
    proof {
        lemma_trim_start_skip(cs@, a as int);
    }
    let ghost t = cs@.subrange(a as int, n as int);
    let mut b: usize = n;
    while b > a && is_whitespace_char(cs[b - 1])
        invariant
            a <= b <= n == cs@.len(),
            t == cs@.subrange(a as int, n as int),
            forall|j: int| b <= j < n ==> is_whitespace(#[trigger] cs@[j]),
        decreases b - a,
    {
        b = b - 1;
    }
    proof {
        assert forall|j: int| (b - a) <= j < t.len() implies is_whitespace(#[trigger] t[j]) by {
            assert(t[j] == cs@[j + a]);
        }
        if b > a {
            assert(t[b - a - 1] == cs@[b - 1]);
        }
        lemma_trim_end_take(t, (b - a) as int);
        assert(t.subrange(0, (b - a) as int) =~= cs@.subrange(a as int, b as int));
    }
    let ghost u = cs@.subrange(a as int, b as int);
    let mut out = String::new();
    let mut i = a;
    while i < b
        invariant
            a <= i <= b <= n == cs@.len(),
            u == cs@.subrange(a as int, b as int),
            out@ == keep_ascii(u.take(i - a)),
        decreases b - i,
    {
        let c = cs[i];
        proof {
            assert(u.take(i - a + 1).drop_last() =~= u.take(i - a));
            assert(u.take(i - a + 1).last() == c);
        }
        if (c as u32) < 128 {
            push_char(&mut out, c);
        }
        i = i + 1;
    }
    assert(u.take(b - a) =~= u);
    out
}

/// The words of a chat line: the line is cut at every space, each piece is
/// trimmed and reduced to its ASCII characters, and the empty pieces are
/// dropped.
pub fn split_words(text: &str) -> (r: Vec<String>)
    ensures
        views(r@) == words(text@),
{
    let cs = chars_of(text);
    let ghost s = cs@;
    let mut done: Vec<String> = Vec::new();
    let mut cur: Vec<char> = Vec::new();
    let mut i: usize = 0;
    proof {
        assert(s.take(0) =~= Seq::<char>::empty());
    }
    while i < cs.len()
        invariant
            s == cs@,
            i <= s.len(),
            split_spaces(s.take(i as int)).len() >= 1,
            views(done@) == clean_words(split_spaces(s.take(i as int)).drop_last()),
            cur@ == split_spaces(s.take(i as int)).last(),
        decreases s.len() - i,
    {
        let c = cs[i];
        let ghost t = s.take(i as int);
        let ghost t1 = s.take(i + 1);
        proof {
            assert(t1.drop_last() =~= t);
            assert(t1.last() == c);
            lemma_split_nonempty(t);
        }
        if c == ' ' {
            let w = clean_piece(&cur);
            proof {
                let p = split_spaces(t);
                assert(split_spaces(t1) == p.push(Seq::<char>::empty()));
                assert(split_spaces(t1).drop_last() =~= p);
                assert(p =~= p.drop_last().push(p.last()));
            }
            if w.as_str().unicode_len() > 0 {
                let ghost before = done@;
                let ghost wv = w@;
                done.push(w);
                proof {
                    assert(views(done@) =~= views(before).push(wv));
                }
            }
            cur = Vec::new();
            proof {
                assert(split_spaces(t1).last() =~= Seq::<char>::empty());
            }
        } else {
            cur.push(c);
            proof {
                let p = split_spaces(t);
                assert(split_spaces(t1) == p.update(p.len() - 1, p.last().push(c)));
                assert(split_spaces(t1).drop_last() =~= p.drop_last());
            }
        }
        i = i + 1;
    }
    proof {
        assert(s.take(s.len() as int) =~= s);
        lemma_split_nonempty(s);
    }
    let w = clean_piece(&cur);
    proof {
        let p = split_spaces(s);
        assert(p =~= p.drop_last().push(p.last()));
    }
    if w.as_str().unicode_len() > 0 {
        let ghost before = done@;
        let ghost wv = w@;
        done.push(w);
        assert(views(done@) =~= views(before).push(wv));
    }
    done
}

} // verus!

verus! {

proof fn lemma_split_pieces_have_no_space(s: Seq<char>)
    ensures
        forall|i: int, j: int|
            0 <= i < split_spaces(s).len() && 0 <= j < split_spaces(s)[i].len() ==> #[trigger] split_spaces(
                s,
            )[i][j] != ' ',
    decreases s.len(),
{
    if s.len() > 0 {
        lemma_split_pieces_have_no_space(s.drop_last());
        lemma_split_nonempty(s.drop_last());
        let p = split_spaces(s.drop_last());
        if s.last() != ' ' {
            assert forall|i: int, j: int|
                0 <= i < split_spaces(s).len() && 0 <= j < split_spaces(s)[i].len() implies #[trigger] split_spaces(
                s,
            )[i][j] != ' ' by {
                if i == p.len() - 1 {
                    if j < p.last().len() {
                        assert(split_spaces(s)[i][j] == p[i][j]);
                    }
                } else {
                    assert(split_spaces(s)[i] == p[i]);
                }
            }
        } else {
            assert forall|i: int, j: int|
                0 <= i < split_spaces(s).len() && 0 <= j < split_spaces(s)[i].len() implies #[trigger] split_spaces(
                s,
            )[i][j] != ' ' by {
                assert(split_spaces(s)[i] == split_spaces(s).drop_last().push(Seq::<char>::empty())[i]);
                if i < p.len() {
                    assert(split_spaces(s)[i] == p[i]);
                }
            }
        }
    }
}

proof fn lemma_trim_start_suffix(s: Seq<char>)
    ensures
        exists|k: int| 0 <= k <= s.len() && trim_start(s) == #[trigger] s.skip(k),
    decreases s.len(),
{
    if s.len() > 0 && is_whitespace(s[0]) {
        lemma_trim_start_suffix(s.drop_first());
        let k = choose|k: int| 0 <= k <= s.drop_first().len() && trim_start(s.drop_first()) == #[trigger] s.drop_first().skip(k);
        assert(s.drop_first().skip(k) =~= s.skip(k + 1));
    } else {
        assert(s.skip(0) =~= s);
    }
}

proof fn lemma_trim_end_prefix(s: Seq<char>)
    ensures
        exists|k: int| 0 <= k <= s.len() && trim_end(s) == #[trigger] s.take(k),
    decreases s.len(),
{
    if s.len() > 0 && is_whitespace(s.last()) {
        lemma_trim_end_prefix(s.drop_last());
        let k = choose|k: int| 0 <= k <= s.drop_last().len() && trim_end(s.drop_last()) == #[trigger] s.drop_last().take(k);
        assert(s.drop_last().take(k) =~= s.take(k));
    } else {
        assert(s.take(s.len() as int) =~= s);
    }
}

proof fn lemma_keep_ascii_chars(s: Seq<char>)
    ensures
        forall|j: int| 0 <= j < keep_ascii(s).len() ==> is_ascii_char(#[trigger] keep_ascii(s)[j]),
        forall|j: int| 0 <= j < keep_ascii(s).len() ==> s.contains(#[trigger] keep_ascii(s)[j]),
    decreases s.len(),
{
    if s.len() > 0 {
        let t = s.drop_last();
        lemma_keep_ascii_chars(t);
        assert forall|j: int| 0 <= j < keep_ascii(s).len() implies s.contains(#[trigger] keep_ascii(s)[j]) by {
            if j < keep_ascii(t).len() {
                assert(keep_ascii(s)[j] == keep_ascii(t)[j]);
                let w = choose|w: int| 0 <= w < t.len() && t[w] == keep_ascii(t)[j];
                assert(s[w] == t[w]);
            } else {
                assert(s[s.len() - 1] == keep_ascii(s)[j]);
            }
        }
        assert forall|j: int| 0 <= j < keep_ascii(s).len() implies is_ascii_char(#[trigger] keep_ascii(s)[j]) by {
            if j < keep_ascii(t).len() {
                assert(keep_ascii(s)[j] == keep_ascii(t)[j]);
            }
        }
    }
}

proof fn lemma_clean_word_shape(p: Seq<char>)
    requires
        forall|j: int| 0 <= j < p.len() ==> #[trigger] p[j] != ' ',
    ensures
        forall|j: int|
            0 <= j < clean_word(p).len() ==> is_ascii_char(#[trigger] clean_word(p)[j]) && clean_word(
                p,
            )[j] != ' ',
{
    lemma_trim_start_suffix(p);
    let k1 = choose|k: int| 0 <= k <= p.len() && trim_start(p) == #[trigger] p.skip(k);
    let a = trim_start(p);
    lemma_trim_end_prefix(a);
    let k2 = choose|k: int| 0 <= k <= a.len() && trim_end(a) == #[trigger] a.take(k);
    let t = trim(p);
    assert forall|j: int| 0 <= j < t.len() implies #[trigger] t[j] != ' ' by {
        assert(t[j] == p[j + k1]);
    }
    lemma_keep_ascii_chars(t);
    assert forall|j: int|
        0 <= j < clean_word(p).len() implies is_ascii_char(#[trigger] clean_word(p)[j]) && clean_word(
        p,
    )[j] != ' ' by {
        let w = choose|w: int| 0 <= w < t.len() && t[w] == keep_ascii(t)[j];
    }
}

proof fn lemma_clean_words_shape(pieces: Seq<Seq<char>>)
    requires
        forall|i: int, j: int|
            0 <= i < pieces.len() && 0 <= j < pieces[i].len() ==> #[trigger] pieces[i][j] != ' ',
    ensures
        forall|i: int|
            0 <= i < clean_words(pieces).len() ==> (#[trigger] clean_words(pieces)[i]).len() > 0,
        forall|i: int, j: int|
            0 <= i < clean_words(pieces).len() && 0 <= j < clean_words(pieces)[i].len()
                ==> is_ascii_char(#[trigger] clean_words(pieces)[i][j]) && clean_words(
                pieces,
            )[i][j] != ' ',
    decreases pieces.len(),
{
    if pieces.len() > 0 {
        let q = pieces.drop_last();
        assert forall|i: int, j: int| 0 <= i < q.len() && 0 <= j < q[i].len() implies #[trigger] q[i][j] != ' ' by {
            assert(q[i] == pieces[i]);
        }
        lemma_clean_words_shape(q);
        let last = pieces.last();
        assert forall|j: int| 0 <= j < last.len() implies #[trigger] last[j] != ' ' by {
            assert(pieces[pieces.len() - 1][j] == last[j]);
        }
        lemma_clean_word_shape(last);
        let cw = clean_words(pieces);
        let cq = clean_words(q);
        assert forall|i: int| 0 <= i < cw.len() implies (#[trigger] cw[i]).len() > 0 by {
            if i < cq.len() {
                assert(cw[i] == cq[i]);
            }
        }
        assert forall|i: int, j: int|
            0 <= i < cw.len() && 0 <= j < cw[i].len() implies is_ascii_char(#[trigger] cw[i][j])
            && cw[i][j] != ' ' by {
            if i < cq.len() {
                assert(cw[i] == cq[i]);
                assert(cw[i][j] == cq[i][j]);
            } else {
                assert(cw[i] == clean_word(last));
            }
        }
    }
}

/// Every word of a line is non-empty, made of ASCII characters only, and
/// holds no space.
pub proof fn lemma_words_shape(s: Seq<char>)
    ensures
        forall|i: int| 0 <= i < words(s).len() ==> (#[trigger] words(s)[i]).len() > 0,
        forall|i: int, j: int|
            0 <= i < words(s).len() && 0 <= j < words(s)[i].len() ==> is_ascii_char(
                #[trigger] words(s)[i][j],
            ) && words(s)[i][j] != ' ',
{
    lemma_split_pieces_have_no_space(s);
    lemma_clean_words_shape(split_spaces(s));
}

} // verus!
