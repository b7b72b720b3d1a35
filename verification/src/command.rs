//! The command parser: one line of text is tokenized on runs of
//! whitespace and classified as one of the protocol's commands.
//!
//! Whitespace here is fixed as the ASCII separators that can appear in a
//! line read from the wire: space, horizontal tab, carriage return and
//! line feed. Leading and trailing whitespace is ignored, verbs are
//! case-sensitive, and an empty or blank line is unrecognized.
use vstd::prelude::*;
use vstd::string::StrSliceExecFns;
use vstd::string::StringExecFns;

verus! {

/// A character that separates tokens.
pub open spec fn is_space(c: char) -> bool {
    c == ' ' || c == '\t' || c == '\r' || c == '\n'
}

/// Index of the first non-space character at or after `i`, or the length
/// of `s` if every remaining character is a space (or `i` is out of range).
pub open spec fn next_nonspace(s: Seq<char>, i: int) -> int
    decreases s.len() - i,
{
    if i < 0 || i >= s.len() {
        s.len() as int
    } else if is_space(s[i]) {
        next_nonspace(s, i + 1)
    } else {
        i
    }
}

/// Index of the first space character at or after `i`, or the length of
/// `s` if every remaining character is non-space (or `i` is out of range).
pub open spec fn next_space(s: Seq<char>, i: int) -> int
    decreases s.len() - i,
{
    if i < 0 || i >= s.len() {
        s.len() as int
    } else if !is_space(s[i]) {
        next_space(s, i + 1)
    } else {
        i
    }
}

pub proof fn lemma_next_nonspace(s: Seq<char>, i: int)
    requires
        0 <= i <= s.len(),
    ensures
        i <= next_nonspace(s, i) <= s.len(),
        next_nonspace(s, i) < s.len() ==> !is_space(s[next_nonspace(s, i)]),
        forall|j: int| i <= j < next_nonspace(s, i) ==> is_space(#[trigger] s[j]),
    decreases s.len() - i,
{
    if i < s.len() && is_space(s[i]) {
        lemma_next_nonspace(s, i + 1);
    }
}

pub proof fn lemma_next_space(s: Seq<char>, i: int)
    requires
        0 <= i <= s.len(),
    ensures
        i <= next_space(s, i) <= s.len(),
        next_space(s, i) < s.len() ==> is_space(s[next_space(s, i)]),
        forall|j: int| i <= j < next_space(s, i) ==> !is_space(#[trigger] s[j]),
    decreases s.len() - i,
{
    if i < s.len() && !is_space(s[i]) {
        lemma_next_space(s, i + 1);
    }
}

/// The whitespace-separated tokens of `s`, starting the scan at `i`.
pub open spec fn tokens_from(s: Seq<char>, i: int) -> Seq<Seq<char>>
    decreases s.len() - i,
{
    let start = next_nonspace(s, i);
    if start >= s.len() {
        Seq::empty()
    } else {
        proof {
            if 0 <= i <= s.len() {
                lemma_next_nonspace(s, i);
                lemma_next_space(s, start);
            }
        }
        seq![s.subrange(start, next_space(s, start))] + tokens_from(s, next_space(s, start))
    }
}

/// The whitespace-separated tokens of a whole line.
pub open spec fn tokens(s: Seq<char>) -> Seq<Seq<char>> {
    tokens_from(s, 0)
}

/// The abstract value of a parsed command: each key or value is the
/// sequence of characters of the corresponding token.
pub enum CommandView {
    Get(Seq<char>),
    Put(Seq<char>, Seq<char>),
    Del(Seq<char>),
    Exists(Seq<char>),
    Ping,
    Unknown(Seq<char>),
}

/// Classification of one line: the token list decides both the verb and
/// the arity; anything else is `Unknown`, carrying the original line.
pub open spec fn parse(s: Seq<char>) -> CommandView {
    let t = tokens(s);
    if t.len() == 2 && t[0] == "GET"@ {
        CommandView::Get(t[1])
    } else if t.len() == 3 && t[0] == "SET"@ {
        CommandView::Put(t[1], t[2])
    } else if t.len() == 2 && t[0] == "DEL"@ {
        CommandView::Del(t[1])
    } else if t.len() == 2 && t[0] == "EXISTS"@ {
        CommandView::Exists(t[1])
    } else if t.len() == 1 && t[0] == "PING"@ {
        CommandView::Ping
    } else {
        CommandView::Unknown(s)
    }
}

/// One request of the protocol, as parsed from a single line.
pub enum Command {
    Get(String),
    Put(String, String),
    Del(String),
    Exists(String),
    Ping,
    Unknown(String),
}

impl View for Command {
    type V = CommandView;

    open spec fn view(&self) -> CommandView {
        match self {
            Command::Get(k) => CommandView::Get(k@),
            Command::Put(k, v) => CommandView::Put(k@, v@),
            Command::Del(k) => CommandView::Del(k@),
            Command::Exists(k) => CommandView::Exists(k@),
            Command::Ping => CommandView::Ping,
            Command::Unknown(line) => CommandView::Unknown(line@),
        }
    }
}

/// Scans forward from `from` to the first non-space character.
fn find_nonspace(s: &str, from: usize, n: usize) -> (r: usize)
    requires
        from <= n,
        n == s@.len(),
    ensures
        from <= r <= n,
        r == next_nonspace(s@, from as int),
{
    let mut i: usize = from;
    while i < n
        invariant
            from <= i <= n,
            n == s@.len(),
            next_nonspace(s@, from as int) == next_nonspace(s@, i as int),
        decreases n - i,
    {
        let c = s.get_char(i);
        if !(c == ' ' || c == '\t' || c == '\r' || c == '\n') {
            return i;
        }
        i = i + 1;
    }
    i
}

/// Scans forward from `from` to the first space character.
fn find_space(s: &str, from: usize, n: usize) -> (r: usize)
    requires
        from <= n,
        n == s@.len(),
    ensures
        from <= r <= n,
        r == next_space(s@, from as int),
{
    let mut i: usize = from;
    while i < n
        invariant
            from <= i <= n,
            n == s@.len(),
            next_space(s@, from as int) == next_space(s@, i as int),
        decreases n - i,
    {
        let c = s.get_char(i);
        if c == ' ' || c == '\t' || c == '\r' || c == '\n' {
            return i;
        }
        i = i + 1;
    }
    i
}

/// Compares the characters of `s` between `start` and `end` with `lit`.
fn token_is(s: &str, start: usize, end: usize, lit: &str) -> (r: bool)
    requires
        start <= end <= s@.len(),
    ensures
        r == (s@.subrange(start as int, end as int) == lit@),
{
    let ghost tok = s@.subrange(start as int, end as int);
    let m = lit.unicode_len();
    if end - start != m {
        assert(tok != lit@) by {
            assert(tok.len() == end - start);
        }
        return false;
    }
    let mut i: usize = 0;
    while i < m
        invariant
            0 <= i <= m,
            m == lit@.len(),
            start <= end <= s@.len(),
            end - start == m,
            tok == s@.subrange(start as int, end as int),
            forall|j: int| 0 <= j < i ==> tok[j] == lit@[j],
        decreases m - i,
    {
        let a = s.get_char(start + i);
        let b = lit.get_char(i);
        if a != b {
            assert(tok[i as int] != lit@[i as int]);
            return false;
        }
        i = i + 1;
    }
    proof {
        assert(tok =~= lit@);
    }
    true
}

/// Copies the characters of `s` between `start` and `end` into a new string.
fn extract(s: &str, start: usize, end: usize) -> (r: String)
    requires
        start <= end <= s@.len(),
    ensures
        r@ == s@.subrange(start as int, end as int),
{
    String::from_str(s.substring_char(start, end))
}

impl Command {
    /// Parses one line into a command; a line that fits none of the
    /// protocol's forms parses to `Unknown`.
    pub fn from_str(input: &str) -> (c: Command)
        ensures
            c@ == parse(input@),
    {
        let ghost s = input@;
        let n = input.unicode_len();
        let s0 = find_nonspace(input, 0, n);
        if s0 == n {
            assert(tokens(s) =~= Seq::<Seq<char>>::empty());
            return Command::Unknown(String::from_str(input));
        }
        let e0 = find_space(input, s0, n);
        let ghost t0 = s.subrange(s0 as int, e0 as int);
        assert(tokens(s) == seq![t0] + tokens_from(s, e0 as int));
        let s1 = find_nonspace(input, e0, n);
        if s1 == n {
            assert(tokens_from(s, e0 as int) =~= Seq::<Seq<char>>::empty());
            assert(tokens(s) =~= seq![t0]);
            if token_is(input, s0, e0, "PING") {
                return Command::Ping;
            }
            return Command::Unknown(String::from_str(input));
        }
        let e1 = find_space(input, s1, n);
        let ghost t1 = s.subrange(s1 as int, e1 as int);
        assert(tokens_from(s, e0 as int) == seq![t1] + tokens_from(s, e1 as int));
        let s2 = find_nonspace(input, e1, n);
        if s2 == n {
            assert(tokens_from(s, e1 as int) =~= Seq::<Seq<char>>::empty());
            assert(tokens(s) =~= seq![t0, t1]);
            if token_is(input, s0, e0, "GET") {
                return Command::Get(extract(input, s1, e1));
            }
            if token_is(input, s0, e0, "DEL") {
                return Command::Del(extract(input, s1, e1));
            }
            if token_is(input, s0, e0, "EXISTS") {
                return Command::Exists(extract(input, s1, e1));
            }
            return Command::Unknown(String::from_str(input));
        }
        let e2 = find_space(input, s2, n);
        let ghost t2 = s.subrange(s2 as int, e2 as int);
        assert(tokens_from(s, e1 as int) == seq![t2] + tokens_from(s, e2 as int));
        let s3 = find_nonspace(input, e2, n);
        if s3 == n {
            assert(tokens_from(s, e2 as int) =~= Seq::<Seq<char>>::empty());
            assert(tokens(s) =~= seq![t0, t1, t2]);
            if token_is(input, s0, e0, "SET") {
                return Command::Put(extract(input, s1, e1), extract(input, s2, e2));
            }
            return Command::Unknown(String::from_str(input));
        }
        assert(tokens(s).len() >= 4);
        Command::Unknown(String::from_str(input))
    }
}

} // verus!
