//! The batch recomputation: the trailing window it counts over, the ranking
//! of activity records, and the destructive replacement of the four ranked
//! collections. Replacing is idempotent: running the job twice over the same
//! records leaves the store as running it once does.

use vstd::prelude::*;

use crate::board::{
    apply_ops, ops_of, Board, Scores, StoreCommand, StoreOp,
};
use crate::decimal::{decimal_text, render_i64};
use crate::ranking::{TopFeed, TopUser};
use crate::tally::{is_top_by_occurrence, rank_by_occurrence, CountEntry};

verus! {

/// The length of the trailing window, in seconds: seven days.
pub const WINDOW_SECONDS: i64 = 604800;

/// How many entries each recomputed collection keeps.
pub const TOP_LIMIT: usize = 1000;

/// One activity record of the document store: the content it concerns and
/// when it was made, in seconds since the Unix epoch.
#[derive(Clone, Copy, Debug, PartialEq, Eq, Structural)]
pub struct ActivityRecord {
    pub feed_id: i64,
    pub created_at: i64,
}

/// The start of the window that ends at `now`, or the earliest time when the
/// window reaches past it.
pub fn window_start(now: i64) -> (r: i64)
    ensures
        r == if now >= i64::MIN + WINDOW_SECONDS {
            now - WINDOW_SECONDS
        } else {
            i64::MIN as int
        },
{
    if now >= i64::MIN + WINDOW_SECONDS {
        now - WINDOW_SECONDS
    } else {
        i64::MIN
    }
}

/// The content ids of the records made at or after `since`, in order.
pub open spec fn ids_in_window(records: Seq<ActivityRecord>, since: i64) -> Seq<i64>
    decreases records.len(),
{
    if records.len() == 0 {
        seq![]
    } else {
        let rest = ids_in_window(records.drop_last(), since);
        if records.last().created_at >= since {
            rest.push(records.last().feed_id)
        } else {
            rest
        }
    }
}

proof fn lemma_ids_in_window_len(records: Seq<ActivityRecord>, since: i64)
    ensures
        ids_in_window(records, since).len() <= records.len(),
    decreases records.len(),
{
    if records.len() > 0 {
        lemma_ids_in_window_len(records.drop_last(), since);
    }
}

/// The content of the records made at or after `since`, ranked by how many
/// records each has: at most `TOP_LIMIT` entries, most active first.
pub fn rank_activity(records: &Vec<ActivityRecord>, since: i64) -> (r: Vec<CountEntry>)
    requires
        records@.len() <= i64::MAX,
    ensures
        is_top_by_occurrence(ids_in_window(records@, since), TOP_LIMIT as nat, r@),
{
    let mut ids: Vec<i64> = Vec::new();
    let mut i: usize = 0;
    while i < records.len()
        invariant
            i <= records@.len(),
            ids@ == ids_in_window(records@.take(i as int), since),
        decreases records@.len() - i,
    {
        let rec = records[i];
        proof {
            assert(records@.take(i + 1).drop_last() =~= records@.take(i as int));
        }
        if rec.created_at >= since {
            ids.push(rec.feed_id);
        }
        i = i + 1;
    }
    proof {
        assert(records@.take(records@.len() as int) =~= records@);
        lemma_ids_in_window_len(records@, since);
    }
    rank_by_occurrence(&ids, TOP_LIMIT)
}

/// Setting each (id, score) of `entries` in collection `b`, in order.
pub open spec fn inserts(b: Board, entries: Seq<(i64, i64)>) -> Seq<StoreOp>
    decreases entries.len(),
{
    if entries.len() == 0 {
        seq![]
    } else {
        inserts(b, entries.drop_last()).push(
            StoreOp::Insert(b, decimal_text(entries.last().0 as int), entries.last().1 as int),
        )
    }
}

/// Clearing collection `b`, then setting each (id, score) of `entries` in it.
pub open spec fn replacement_ops(b: Board, entries: Seq<(i64, i64)>) -> Seq<StoreOp> {
    seq![StoreOp::Clear(b)] + inserts(b, entries)
}

proof fn lemma_inserts_shape(b: Board, entries: Seq<(i64, i64)>)
    ensures
        inserts(b, entries).len() == entries.len(),
        forall|i: int|
            0 <= i < entries.len() ==> #[trigger] inserts(b, entries)[i] is Insert && op_board(
                inserts(b, entries)[i],
            ) == b,
    decreases entries.len(),
{
    if entries.len() > 0 {
        lemma_inserts_shape(b, entries.drop_last());
    }
}

pub open spec fn user_entries(users: Seq<TopUser>) -> Seq<(i64, i64)> {
    users.map_values(|u: TopUser| (u.user_id, u.total_likes))
}

pub open spec fn feed_entries(feeds: Seq<TopFeed>) -> Seq<(i64, i64)> {
    feeds.map_values(|f: TopFeed| (f.feed_id, f.count))
}

/// What the job writes: each collection replaced by its recomputed list.
pub open spec fn batch_ops(
    users: Seq<TopUser>,
    commented: Seq<TopFeed>,
    viewed: Seq<TopFeed>,
    liked: Seq<TopFeed>,
) -> Seq<StoreOp> {
    replacement_ops(Board::UsersLiked, user_entries(users)) + replacement_ops(
        Board::Comments,
        feed_entries(commented),
    ) + replacement_ops(Board::FeedsViewed, feed_entries(viewed)) + replacement_ops(
        Board::FeedsLiked,
        feed_entries(liked),
    )
}

fn push_clear(cmds: &mut Vec<StoreCommand>, b: Board)
    ensures
        ops_of(final(cmds)@) == ops_of(old(cmds)@) + seq![StoreOp::Clear(b)],
{
    cmds.push(StoreCommand::Clear { board: b });
    assert(ops_of(cmds@) =~= ops_of(old(cmds)@) + seq![StoreOp::Clear(b)]);
}

fn push_user_replacement(cmds: &mut Vec<StoreCommand>, b: Board, users: &Vec<TopUser>)
    ensures
        ops_of(final(cmds)@) == ops_of(old(cmds)@) + replacement_ops(b, user_entries(users@)),
{
    push_clear(cmds, b);
    let ghost start = ops_of(cmds@);
    let mut i: usize = 0;
    assert(user_entries(users@).take(0) =~= Seq::<(i64, i64)>::empty());
    assert(ops_of(cmds@) =~= start + inserts(b, user_entries(users@).take(0)));
    while i < users.len()
        invariant
            i <= users@.len(),
            ops_of(cmds@) == start + inserts(b, user_entries(users@).take(i as int)),
        decreases users@.len() - i,
    {
        let u = &users[i];
        let cmd = StoreCommand::Insert { board: b, member: render_i64(u.user_id), score: u.total_likes };
        let ghost before = cmds@;
        cmds.push(cmd);
        proof {
            assert(ops_of(cmds@) =~= ops_of(before).push(cmd@));
            let next = user_entries(users@).take(i + 1);
            assert(next.drop_last() =~= user_entries(users@).take(i as int));
            assert(next.last() == (u.user_id, u.total_likes));
            assert(ops_of(cmds@) =~= start + inserts(b, next));
        }
        i = i + 1;
    }
    assert(user_entries(users@).take(users@.len() as int) =~= user_entries(users@));
    assert(ops_of(cmds@) =~= ops_of(old(cmds)@) + replacement_ops(b, user_entries(users@)));
}

fn push_feed_replacement(cmds: &mut Vec<StoreCommand>, b: Board, feeds: &Vec<TopFeed>)
    ensures
        ops_of(final(cmds)@) == ops_of(old(cmds)@) + replacement_ops(b, feed_entries(feeds@)),
{
    push_clear(cmds, b);
    let ghost start = ops_of(cmds@);
    let mut i: usize = 0;
    assert(feed_entries(feeds@).take(0) =~= Seq::<(i64, i64)>::empty());
    assert(ops_of(cmds@) =~= start + inserts(b, feed_entries(feeds@).take(0)));
    while i < feeds.len()
        invariant
            i <= feeds@.len(),
            ops_of(cmds@) == start + inserts(b, feed_entries(feeds@).take(i as int)),
        decreases feeds@.len() - i,
    {
        let f = &feeds[i];
        let cmd = StoreCommand::Insert { board: b, member: render_i64(f.feed_id), score: f.count };
        let ghost before = cmds@;
        cmds.push(cmd);
        proof {
            assert(ops_of(cmds@) =~= ops_of(before).push(cmd@));
            let next = feed_entries(feeds@).take(i + 1);
            assert(next.drop_last() =~= feed_entries(feeds@).take(i as int));
            assert(next.last() == (f.feed_id, f.count));
            assert(ops_of(cmds@) =~= start + inserts(b, next));
        }
        i = i + 1;
    }
    assert(feed_entries(feeds@).take(feeds@.len() as int) =~= feed_entries(feeds@));
    assert(ops_of(cmds@) =~= ops_of(old(cmds)@) + replacement_ops(b, feed_entries(feeds@)));
}

/// The commands of one recomputation: each of the four collections cleared,
/// then filled with its recomputed entries, member ids written in decimal.
pub fn calculate_top_stats(
    users: &Vec<TopUser>,
    commented: &Vec<TopFeed>,
    viewed: &Vec<TopFeed>,
    liked: &Vec<TopFeed>,
) -> (r: Vec<StoreCommand>)
    ensures
        ops_of(r@) == batch_ops(users@, commented@, viewed@, liked@),
{
    let mut cmds: Vec<StoreCommand> = Vec::new();
    assert(ops_of(cmds@) =~= Seq::<StoreOp>::empty());
    push_user_replacement(&mut cmds, Board::UsersLiked, users);
    push_feed_replacement(&mut cmds, Board::Comments, commented);
    push_feed_replacement(&mut cmds, Board::FeedsViewed, viewed);
    push_feed_replacement(&mut cmds, Board::FeedsLiked, liked);
    assert(ops_of(cmds@) =~= batch_ops(users@, commented@, viewed@, liked@));
    cmds
}

/// The collection an operation touches.
pub open spec fn op_board(op: StoreOp) -> Board {
    match op {
        StoreOp::Increment(b, _, _) => b,
        StoreOp::Clear(b) => b,
        StoreOp::Insert(b, _, _) => b,
    }
}

/// Whether `ops` clears collection `b` somewhere.
pub open spec fn clears(ops: Seq<StoreOp>, b: Board) -> bool {
    exists|j: int| 0 <= j < ops.len() && #[trigger] ops[j] == StoreOp::Clear(b)
}

/// Every write to a collection comes after a clear of that collection.
pub open spec fn writes_after_clear(ops: Seq<StoreOp>) -> bool {
    forall|i: int|
        0 <= i < ops.len() && !(ops[i] is Clear) ==> clears(ops.take(i), op_board(#[trigger] ops[i]))
}

/// Whether the stores `s` and `t` hold the same entry for `k`.
pub open spec fn same_at(s: Scores, t: Scores, k: (Board, Seq<char>)) -> bool {
    &&& s.contains_key(k) <==> t.contains_key(k)
    &&& s.contains_key(k) ==> s[k] == t[k]
}

proof fn lemma_prefix_writes_after_clear(ops: Seq<StoreOp>)
    requires
        writes_after_clear(ops),
        ops.len() > 0,
    ensures
        writes_after_clear(ops.drop_last()),
        !(ops.last() is Clear) ==> clears(ops.drop_last(), op_board(ops.last())),
{
    let p = ops.drop_last();
    assert forall|i: int| 0 <= i < p.len() && !(p[i] is Clear) implies clears(
        p.take(i),
        op_board(#[trigger] p[i]),
    ) by {
        assert(p.take(i) =~= ops.take(i));
        assert(ops[i] == p[i]);
    }
    assert(ops.take(ops.len() - 1) =~= p);
    if !(ops.last() is Clear) {
        assert(!(ops[ops.len() - 1] is Clear));
    }
}

/// Applying operations that clear each collection before writing it: on a
/// cleared collection the outcome does not depend on the starting store, and
/// any other collection keeps its starting contents.
proof fn lemma_cleared_outcome(s1: Scores, s2: Scores, ops: Seq<StoreOp>, k: (Board, Seq<char>))
    requires
        writes_after_clear(ops),
    ensures
        clears(ops, k.0) ==> same_at(apply_ops(s1, ops), apply_ops(s2, ops), k),
        !clears(ops, k.0) ==> same_at(apply_ops(s1, ops), s1, k),
    decreases ops.len(),
{
    if ops.len() > 0 {
        let p = ops.drop_last();
        let op = ops.last();
        lemma_prefix_writes_after_clear(ops);
        lemma_cleared_outcome(s1, s2, p, k);
        assert(op == ops[ops.len() - 1]);
        if clears(p, k.0) {
            assert(clears(ops, k.0)) by {
                let j = choose|j: int| 0 <= j < p.len() && #[trigger] p[j] == StoreOp::Clear(k.0);
                assert(ops[j] == StoreOp::Clear(k.0));
            }
        }
        if !clears(ops, k.0) {
            assert(!clears(p, k.0));
            assert(op != StoreOp::Clear(k.0));
            if !(op is Clear) {
                assert(op_board(op) != k.0);
            }
        } else if !clears(p, k.0) {
            let j = choose|j: int| 0 <= j < ops.len() && #[trigger] ops[j] == StoreOp::Clear(k.0);
            if j < p.len() {
                assert(p[j] == StoreOp::Clear(k.0));
            }
            assert(op == StoreOp::Clear(k.0));
        }
    }
}

/// Operations that clear each collection before writing it give, applied
/// twice, the store they give applied once.
pub proof fn lemma_replacement_idempotent(s: Scores, ops: Seq<StoreOp>)
    requires
        writes_after_clear(ops),
    ensures
        apply_ops(apply_ops(s, ops), ops) == apply_ops(s, ops),
{
    let once = apply_ops(s, ops);
    let twice = apply_ops(once, ops);
    assert forall|k: (Board, Seq<char>)| #[trigger] same_at(twice, once, k) by {
        lemma_cleared_outcome(s, once, ops, k);
        lemma_cleared_outcome(once, s, ops, k);
    }
    assert(twice =~= once) by {
        assert forall|k: (Board, Seq<char>)| twice.contains_key(k) <==> once.contains_key(k) by {
            assert(same_at(twice, once, k));
        }
        assert forall|k: (Board, Seq<char>)| #[trigger] twice.contains_key(k) implies twice[k]
            == once[k] by {
            assert(same_at(twice, once, k));
        }
    }
}

proof fn lemma_replacement_writes_after_clear(b: Board, entries: Seq<(i64, i64)>)
    ensures
        writes_after_clear(replacement_ops(b, entries)),
{
    let ops = replacement_ops(b, entries);
    lemma_inserts_shape(b, entries);
    assert forall|i: int| 0 <= i < ops.len() && !(ops[i] is Clear) implies clears(
        ops.take(i),
        op_board(#[trigger] ops[i]),
    ) by {
        assert(i > 0);
        assert(ops[i] == inserts(b, entries)[i - 1]);
        assert(ops.take(i)[0] == StoreOp::Clear(b));
    }
}

proof fn lemma_concat_write_at(a: Seq<StoreOp>, b: Seq<StoreOp>, i: int)
    requires
        writes_after_clear(a),
        writes_after_clear(b),
        0 <= i < (a + b).len(),
        !((a + b)[i] is Clear),
    ensures
        clears((a + b).take(i), op_board((a + b)[i])),
{
    let c = a + b;
    if i < a.len() {
        assert(c.take(i) =~= a.take(i));
        assert(c[i] == a[i]);
    } else {
        let i2 = i - a.len();
        assert(c[i] == b[i2]);
        let bt = b.take(i2);
        assert(clears(bt, op_board(b[i2])));
        let j = choose|j: int| 0 <= j < bt.len() && #[trigger] bt[j] == StoreOp::Clear(op_board(b[i2]));
        let ct = c.take(i);
        assert(ct[a.len() + j] == bt[j]);
    }
}

proof fn lemma_concat_writes_after_clear(a: Seq<StoreOp>, b: Seq<StoreOp>)
    requires
        writes_after_clear(a),
        writes_after_clear(b),
    ensures
        writes_after_clear(a + b),
{
    assert forall|i: int| 0 <= i < (a + b).len() && !((a + b)[i] is Clear) implies clears(
        (a + b).take(i),
        op_board(#[trigger] (a + b)[i]),
    ) by {
        lemma_concat_write_at(a, b, i);
    }
}

/// Running the recomputation twice in succession over the same records gives
/// the same ranked store as running it once.
pub proof fn lemma_batch_idempotent(
    s: Scores,
    users: Seq<TopUser>,
    commented: Seq<TopFeed>,
    viewed: Seq<TopFeed>,
    liked: Seq<TopFeed>,
)
    ensures
        apply_ops(apply_ops(s, batch_ops(users, commented, viewed, liked)), batch_ops(users, commented, viewed, liked))
            == apply_ops(s, batch_ops(users, commented, viewed, liked)),
{
    let r1 = replacement_ops(Board::UsersLiked, user_entries(users));
    let r2 = replacement_ops(Board::Comments, feed_entries(commented));
    let r3 = replacement_ops(Board::FeedsViewed, feed_entries(viewed));
    let r4 = replacement_ops(Board::FeedsLiked, feed_entries(liked));
    lemma_replacement_writes_after_clear(Board::UsersLiked, user_entries(users));
    lemma_replacement_writes_after_clear(Board::Comments, feed_entries(commented));
    lemma_replacement_writes_after_clear(Board::FeedsViewed, feed_entries(viewed));
    lemma_replacement_writes_after_clear(Board::FeedsLiked, feed_entries(liked));
    lemma_concat_writes_after_clear(r1, r2);
    lemma_concat_writes_after_clear(r1 + r2, r3);
    lemma_concat_writes_after_clear(r1 + r2 + r3, r4);
    lemma_replacement_idempotent(s, batch_ops(users, commented, viewed, liked));
}

} // verus!
