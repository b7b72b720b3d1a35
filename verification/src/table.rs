//! The table: a mapping from string keys to string values, abstracted as
//! a `Map<Seq<char>, Seq<char>>`, together with the dispatch step that
//! runs one parsed command against it and renders the reply line.
use crate::command::Command;
use crate::command::CommandView;
use crate::command::parse;
use vstd::prelude::*;
use vstd::string::StringExecFns;

verus! {

/// The dataset: at most one value per key; a key that is absent is a
/// state distinct from a key bound to the empty value.
pub struct Table {
    map: vstd::hash_map::StringHashMap<String>,
}

impl View for Table {
    type V = Map<Seq<char>, Seq<char>>;

    closed spec fn view(&self) -> Map<Seq<char>, Seq<char>> {
        Map::new(|k: Seq<char>| self.map@.contains_key(k), |k: Seq<char>| self.map@[k]@)
    }
}

impl Table {
    /// An empty table.
    pub fn new() -> (t: Table)
        ensures
            t@ == Map::<Seq<char>, Seq<char>>::empty(),
    {
        let t = Table { map: vstd::hash_map::StringHashMap::new() };
        proof {
            assert(t@ =~= Map::<Seq<char>, Seq<char>>::empty());
        }
        t
    }

    /// The current value for `key`, or `None` if the key is absent.
    pub fn get(&self, key: &str) -> (r: Option<String>)
        ensures
            match r {
                Some(v) => self@.contains_key(key@) && v@ == self@[key@],
                None => !self@.contains_key(key@),
            },
    {
        match self.map.get(key) {
            Some(v) => Some(v.clone()),
            None => None,
        }
    }

    /// Inserts or overwrites the binding for `key`, atomically from the
    /// point of view of the abstract map.
    pub fn set(&mut self, key: String, val: String)
        ensures
            final(self)@ == old(self)@.insert(key@, val@),
    {
        self.map.insert(key, val);
        proof {
            assert(final(self)@ =~= old(self)@.insert(key@, val@));
        }
    }

    /// Removes the binding for `key` if present; reports whether a
    /// removal occurred. An absent key is not an error.
    pub fn delete(&mut self, key: &str) -> (was_present: bool)
        ensures
            was_present == old(self)@.contains_key(key@),
            final(self)@ == old(self)@.remove(key@),
    {
        let was_present = self.map.contains_key(key);
        self.map.remove(key);
        proof {
            assert(final(self)@ =~= old(self)@.remove(key@));
        }
        was_present
    }

    /// Whether `key` is currently bound; the same answer `get(key).is_some()`
    /// would give.
    pub fn contains_key(&self, key: &str) -> (r: bool)
        ensures
            r == self@.contains_key(key@),
    {
        self.map.contains_key(key)
    }
}

/// The abstract table after one command: `SET` inserts or overwrites,
/// `DEL` removes, every other command leaves the table unchanged.
pub open spec fn next_table(
    m: Map<Seq<char>, Seq<char>>,
    c: CommandView,
) -> Map<Seq<char>, Seq<char>> {
    match c {
        CommandView::Put(k, v) => m.insert(k, v),
        CommandView::Del(k) => m.remove(k),
        _ => m,
    }
}

/// The reply line for one command against the table state `m`.
pub open spec fn reply_of(m: Map<Seq<char>, Seq<char>>, c: CommandView) -> Seq<char> {
    match c {
        CommandView::Get(k) => if m.contains_key(k) {
            m[k]
        } else {
            "(nil)"@
        },
        CommandView::Put(k, v) => "OK"@,
        CommandView::Del(k) => if m.contains_key(k) {
            "(integer) 1"@
        } else {
            "(integer) 0"@
        },
        CommandView::Exists(k) => if m.contains_key(k) {
            "(integer) 1"@
        } else {
            "(integer) 0"@
        },
        CommandView::Ping => "PONG"@,
        CommandView::Unknown(line) => "ERR unknown command"@,
    }
}

/// Renders a fetched value, or the absence marker.
pub fn reply_for_get(v: Option<String>) -> (r: String)
    ensures
        r@ == match v {
            Some(s) => s@,
            None => "(nil)"@,
        },
{
    match v {
        Some(s) => s,
        None => String::from_str("(nil)"),
    }
}

/// Renders a presence flag as the protocol's integer reply.
pub fn reply_for_flag(b: bool) -> (r: String)
    ensures
        r@ == if b {
            "(integer) 1"@
        } else {
            "(integer) 0"@
        },
{
    if b {
        String::from_str("(integer) 1")
    } else {
        String::from_str("(integer) 0")
    }
}

impl Table {
    /// Runs one command against the table and returns the reply line,
    /// exactly as `next_table` and `reply_of` describe.
    pub fn execute(&mut self, cmd: Command) -> (reply: String)
        ensures
            final(self)@ == next_table(old(self)@, cmd@),
            reply@ == reply_of(old(self)@, cmd@),
    {
        match cmd {
            Command::Get(k) => reply_for_get(self.get(k.as_str())),
            Command::Put(k, v) => {
                self.set(k, v);
                String::from_str("OK")
            },
            Command::Del(k) => reply_for_flag(self.delete(k.as_str())),
            Command::Exists(k) => reply_for_flag(self.contains_key(k.as_str())),
            Command::Ping => String::from_str("PONG"),
            Command::Unknown(_) => String::from_str("ERR unknown command"),
        }
    }

    /// Parses one line and runs the resulting command: the whole
    /// dispatching step of a connection handler, without the I/O.
    pub fn handle_line(&mut self, line: &str) -> (reply: String)
        ensures
            final(self)@ == next_table(old(self)@, parse(line@)),
            reply@ == reply_of(old(self)@, parse(line@)),
    {
        self.execute(Command::from_str(line))
    }
}

} // verus!
