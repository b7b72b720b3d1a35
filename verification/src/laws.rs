//! Laws of the protocol semantics: what any sequence of commands, run
//! against the abstract table, guarantees to a client.
//!
//! Commands from all connections interleave into one sequence, because
//! every table operation runs under the store's lock; these laws speak of
//! that linearized sequence through [`run`].
use crate::command::CommandView;
use crate::command::parse;
use crate::table::next_table;
use crate::table::reply_of;
use vstd::prelude::*;

verus! {

/// The table after a sequence of commands has run, in order.
pub open spec fn run(
    m: Map<Seq<char>, Seq<char>>,
    cs: Seq<CommandView>,
) -> Map<Seq<char>, Seq<char>>
    decreases cs.len(),
{
    if cs.len() == 0 {
        m
    } else {
        run(next_table(m, cs[0]), cs.drop_first())
    }
}

/// Whether `c` writes the key `k`, by insertion or removal.
pub open spec fn writes_key(c: CommandView, k: Seq<char>) -> bool {
    match c {
        CommandView::Put(k2, v) => k2 == k,
        CommandView::Del(k2) => k2 == k,
        _ => false,
    }
}

/// Whether `c` inserts a binding for the key `k`.
pub open spec fn sets_key(c: CommandView, k: Seq<char>) -> bool {
    match c {
        CommandView::Put(k2, v) => k2 == k,
        _ => false,
    }
}

/// A command that does not write `k` leaves `k`'s binding untouched.
pub proof fn lemma_step_preserves_key(m: Map<Seq<char>, Seq<char>>, c: CommandView, k: Seq<char>)
    requires
        !writes_key(c, k),
    ensures
        next_table(m, c).contains_key(k) == m.contains_key(k),
        m.contains_key(k) ==> next_table(m, c)[k] == m[k],
{
}

/// Idempotence of GET: with no intervening SET or DEL for `k` — whatever
/// other commands run, on any connection — repeated `GET k` returns the
/// same reply every time, and GET itself never changes the table.
pub proof fn lemma_get_idempotent(
    m: Map<Seq<char>, Seq<char>>,
    cs: Seq<CommandView>,
    k: Seq<char>,
)
    requires
        forall|i: int| 0 <= i < cs.len() ==> !writes_key(#[trigger] cs[i], k),
    ensures
        next_table(m, CommandView::Get(k)) == m,
        reply_of(run(m, cs), CommandView::Get(k)) == reply_of(m, CommandView::Get(k)),
    decreases cs.len(),
{
    if cs.len() > 0 {
        lemma_step_preserves_key(m, cs[0], k);
        lemma_get_idempotent(next_table(m, cs[0]), cs.drop_first(), k);
    }
}

/// Write visibility: once `SET k v` has been applied, a `GET k` — on any
/// connection — returns `v`, as long as no later command writes `k`.
pub proof fn lemma_write_visibility(
    m: Map<Seq<char>, Seq<char>>,
    cs: Seq<CommandView>,
    k: Seq<char>,
    v: Seq<char>,
)
    requires
        forall|i: int| 0 <= i < cs.len() ==> !writes_key(#[trigger] cs[i], k),
    ensures
        reply_of(run(next_table(m, CommandView::Put(k, v)), cs), CommandView::Get(k)) == v,
{
    lemma_get_idempotent(next_table(m, CommandView::Put(k, v)), cs, k);
}

/// Delete correctness: `DEL k` replies `(integer) 1` exactly when `k` was
/// bound, and after it `k` is gone, so every later `DEL k` replies
/// `(integer) 0` until some `SET k` runs again.
pub proof fn lemma_delete_correctness(
    m: Map<Seq<char>, Seq<char>>,
    cs: Seq<CommandView>,
    k: Seq<char>,
)
    requires
        forall|i: int| 0 <= i < cs.len() ==> !sets_key(#[trigger] cs[i], k),
    ensures
        reply_of(m, CommandView::Del(k)) == if m.contains_key(k) {
            "(integer) 1"@
        } else {
            "(integer) 0"@
        },
        !next_table(m, CommandView::Del(k)).contains_key(k),
        reply_of(run(next_table(m, CommandView::Del(k)), cs), CommandView::Del(k)) == "(integer) 0"@,
{
    lemma_absent_stays_absent(next_table(m, CommandView::Del(k)), cs, k);
    lemma_distinct_replies();
}

/// A key bound to nothing stays unbound under commands that never set it.
pub proof fn lemma_absent_stays_absent(
    m: Map<Seq<char>, Seq<char>>,
    cs: Seq<CommandView>,
    k: Seq<char>,
)
    requires
        !m.contains_key(k),
        forall|i: int| 0 <= i < cs.len() ==> !sets_key(#[trigger] cs[i], k),
    ensures
        !run(m, cs).contains_key(k),
    decreases cs.len(),
{
    if cs.len() > 0 {
        lemma_absent_stays_absent(next_table(m, cs[0]), cs.drop_first(), k);
    }
}

/// The two integer replies and the absence marker are distinct lines.
pub proof fn lemma_distinct_replies()
    ensures
        "(integer) 1"@ != "(integer) 0"@,
        "(nil)"@ != "(integer) 1"@,
        "(nil)"@ != "(integer) 0"@,
{
    reveal_strlit("(integer) 1");
    reveal_strlit("(integer) 0");
    reveal_strlit("(nil)");
    assert("(integer) 1"@[10] == '1');
    assert("(integer) 0"@[10] == '0');
    assert("(nil)"@.len() == 5);
    assert("(integer) 1"@.len() == 11);
    assert("(integer) 0"@.len() == 11);
}

/// Exists/Get agreement: `EXISTS k` replies `(integer) 1` exactly when an
/// immediately following `GET k` would not reply `(nil)` — provided the
/// value bound to `k`, if any, is not itself the literal `(nil)`, a value
/// the wire protocol cannot tell from absence.
pub proof fn lemma_exists_get_agreement(m: Map<Seq<char>, Seq<char>>, k: Seq<char>)
    requires
        m.contains_key(k) ==> m[k] != "(nil)"@,
    ensures
        (reply_of(m, CommandView::Exists(k)) == "(integer) 1"@) <==> (reply_of(
            m,
            CommandView::Get(k),
        ) != "(nil)"@),
{
    lemma_distinct_replies();
}

/// Unknown command safety: a line that parses to no known command — empty,
/// blank, an unrecognized verb, or a wrong argument count — replies
/// `ERR unknown command` and does not mutate the table.
pub proof fn lemma_unknown_safety(m: Map<Seq<char>, Seq<char>>, s: Seq<char>)
    requires
        parse(s) is Unknown,
    ensures
        next_table(m, parse(s)) == m,
        reply_of(m, parse(s)) == "ERR unknown command"@,
{
}

/// A line of nothing but whitespace — the empty line included — parses to
/// no known command.
pub proof fn lemma_blank_line_unknown(s: Seq<char>)
    requires
        forall|i: int| 0 <= i < s.len() ==> crate::command::is_space(#[trigger] s[i]),
    ensures
        parse(s) is Unknown,
{
    crate::command::lemma_next_nonspace(s, 0);
    assert(crate::command::tokens(s) =~= Seq::<Seq<char>>::empty());
}

/// Concurrent writer race: two racing `SET k a` and `SET k b` linearize in
/// one of two orders; either way the table afterwards binds `k` to one of
/// the two written values, whole — never a mixture, never both.
pub proof fn lemma_set_race(
    m: Map<Seq<char>, Seq<char>>,
    k: Seq<char>,
    a: Seq<char>,
    b: Seq<char>,
)
    ensures
        run(m, seq![CommandView::Put(k, a), CommandView::Put(k, b)])[k] == b,
        run(m, seq![CommandView::Put(k, b), CommandView::Put(k, a)])[k] == a,
        run(m, seq![CommandView::Put(k, a), CommandView::Put(k, b)]).contains_key(k),
        run(m, seq![CommandView::Put(k, b), CommandView::Put(k, a)]).contains_key(k),
{
    reveal_with_fuel(run, 3);
    let ab = seq![CommandView::Put(k, a), CommandView::Put(k, b)];
    let ba = seq![CommandView::Put(k, b), CommandView::Put(k, a)];
    assert(ab.drop_first() =~= seq![CommandView::Put(k, b)]);
    assert(ba.drop_first() =~= seq![CommandView::Put(k, a)]);
    assert(ab.drop_first().drop_first() =~= Seq::<CommandView>::empty());
    assert(ba.drop_first().drop_first() =~= Seq::<CommandView>::empty());
    assert(run(m, ab) == m.insert(k, a).insert(k, b));
    assert(run(m, ba) == m.insert(k, b).insert(k, a));
}

} // verus!
