//! The shared store: the table behind a verified reader-writer lock.
//!
//! Many connection handlers hold one `Store` by shared reference. Readers
//! run concurrently; a writer excludes readers and other writers for the
//! duration of the table mutation alone, never across I/O. Because the
//! state is shared, a method on `&self` cannot pin its result to a view
//! of the table; the exact sequential semantics of each operation is
//! stated and proved on [`Table`], which every method here runs under
//! the lock.
use crate::command::Command;
use crate::command::CommandView;
use crate::command::parse;
use crate::table::Table;
use crate::table::reply_for_flag;
use crate::table::reply_for_get;
use vstd::prelude::*;
use vstd::rwlock::RwLock;
use vstd::rwlock::RwLockPredicate;
use vstd::string::StringExecFns;

verus! {

/// The lock invariant: every table is a valid state of the store.
pub struct AnyTable {}

impl RwLockPredicate<Table> for AnyTable {
    open spec fn inv(self, t: Table) -> bool {
        true
    }
}

/// The operations a key-value backend offers to a connection handler,
/// all through a shared reference: the backend is one value shared by
/// every connection.
pub trait Storage<T> {
    /// The current value for `key`, if any.
    fn get(&self, key: &str) -> Option<T>;

    /// Inserts or overwrites the binding for `key`.
    fn set(&self, key: String, val: T);

    /// Removes `key`; reports whether a removal occurred.
    fn delete(&self, key: &str) -> bool;
}

/// The table shared by all connections, guarded by a reader-writer lock.
pub struct Store {
    inner: RwLock<Table, AnyTable>,
}

/// What is known of a reply without knowing the racing writers: its shape
/// is fixed by the command alone.
pub open spec fn reply_shape(c: CommandView, r: Seq<char>) -> bool {
    match c {
        CommandView::Get(k) => true,
        CommandView::Put(k, v) => r == "OK"@,
        CommandView::Del(k) => r == "(integer) 1"@ || r == "(integer) 0"@,
        CommandView::Exists(k) => r == "(integer) 1"@ || r == "(integer) 0"@,
        CommandView::Ping => r == "PONG"@,
        CommandView::Unknown(line) => r == "ERR unknown command"@,
    }
}

impl Store {
    /// An empty store, created once at process start and then shared.
    pub fn new() -> Store {
        Store { inner: RwLock::new(Table::new(), Ghost(AnyTable {})) }
    }

    /// Reads the current value for `key` under a shared read lock.
    pub fn get(&self, key: &str) -> Option<String> {
        let handle = self.inner.acquire_read();
        let r = handle.borrow().get(key);
        handle.release_read();
        r
    }

    /// Inserts or overwrites `key` under the exclusive write lock; the
    /// lock is held for the mutation alone.
    pub fn set(&self, key: String, val: String) {
        let (mut table, handle) = self.inner.acquire_write();
        table.set(key, val);
        handle.release_write(table);
    }

    /// Removes `key` under the exclusive write lock; reports whether a
    /// removal occurred.
    pub fn delete(&self, key: &str) -> bool {
        let (mut table, handle) = self.inner.acquire_write();
        let was_present = table.delete(key);
        handle.release_write(table);
        was_present
    }

    /// Whether `key` is currently bound, under a shared read lock.
    pub fn contains_key(&self, key: &str) -> bool {
        let handle = self.inner.acquire_read();
        let r = handle.borrow().contains_key(key);
        handle.release_read();
        r
    }

    /// Runs one command, locking the table only for the table operation
    /// itself: shared for reads, exclusive for writes.
    pub fn execute(&self, cmd: Command) -> (reply: String)
        ensures
            reply_shape(cmd@, reply@),
    {
        match cmd {
            Command::Get(k) => reply_for_get(self.get(k.as_str())),
            Command::Put(k, v) => {
                self.set(k, v);
                String::from_str("OK")
            },
            Command::Del(k) => reply_for_flag(self.delete(k.as_str())),
            Command::Exists(k) => reply_for_flag(self.contains_key(k.as_str())),
            Command::Ping => String::from_str("PONG"),
            Command::Unknown(_) => String::from_str("ERR unknown command"),
        }
    }

    /// Parses one line and runs it: the dispatching step of a connection
    /// handler. Parsing touches no shared state; only the table operation
    /// inside takes the lock.
    pub fn handle_line(&self, line: &str) -> (reply: String)
        ensures
            reply_shape(parse(line@), reply@),
    {
        let cmd = Command::from_str(line);
        self.execute(cmd)
    }
}

impl Storage<String> for Store {
    fn get(&self, key: &str) -> Option<String> {
        Store::get(self, key)
    }

    fn set(&self, key: String, val: String) {
        Store::set(self, key, val)
    }

    fn delete(&self, key: &str) -> bool {
        Store::delete(self, key)
    }
}

} // verus!
