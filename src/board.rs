//! The four ranked collections, the commands that change them, and a model
//! of the ranked store's contents on which the laws of the pipeline are
//! stated.

use vstd::prelude::*;

use crate::decimal::{decimal_text, render_i64};
use crate::events::same_text;

verus! {

/// One of the four ranked collections.
#[derive(Clone, Copy, Debug, PartialEq, Eq, Structural)]
pub enum Board {
    /// Users, by likes received on their content.
    UsersLiked,
    /// Content, by comments.
    Comments,
    /// Content, by views.
    FeedsViewed,
    /// Content, by likes.
    FeedsLiked,
}

/// The key under which the store holds a collection.
pub open spec fn board_key(b: Board) -> Seq<char> {
    match b {
        Board::UsersLiked => "top:users_liked"@,
        Board::Comments => "top:comments"@,
        Board::FeedsViewed => "top:feeds_viewed"@,
        Board::FeedsLiked => "top:feeds_liked"@,
    }
}

/// The collection stored under `key`, if any.
pub open spec fn board_of_key(key: Seq<char>) -> Option<Board> {
    if key == "top:users_liked"@ {
        Some(Board::UsersLiked)
    } else if key == "top:comments"@ {
        Some(Board::Comments)
    } else if key == "top:feeds_viewed"@ {
        Some(Board::FeedsViewed)
    } else if key == "top:feeds_liked"@ {
        Some(Board::FeedsLiked)
    } else {
        None
    }
}

impl Board {
    /// The collection a store key names, if any.
    pub fn from_key(key: &str) -> (r: Option<Board>)
        ensures
            r == board_of_key(key@),
    {
        if same_text(key, "top:users_liked") {
            Some(Board::UsersLiked)
        } else if same_text(key, "top:comments") {
            Some(Board::Comments)
        } else if same_text(key, "top:feeds_viewed") {
            Some(Board::FeedsViewed)
        } else if same_text(key, "top:feeds_liked") {
            Some(Board::FeedsLiked)
        } else {
            None
        }
    }

    /// The store key of this collection.
    pub fn key(&self) -> (r: &'static str)
        ensures
            r@ == board_key(*self),
    {
        match self {
            Board::UsersLiked => "top:users_liked",
            Board::Comments => "top:comments",
            Board::FeedsViewed => "top:feeds_viewed",
            Board::FeedsLiked => "top:feeds_liked",
        }
    }

    /// Whether the collection ranks identities rather than content.
    pub fn ranks_users(&self) -> (r: bool)
        ensures
            r == (*self == Board::UsersLiked),
    {
        match self {
            Board::UsersLiked => true,
            _ => false,
        }
    }
}

/// A command to the ranked store.
#[derive(Clone, Debug)]
pub enum StoreCommand {
    /// Add `delta` to the member's score, the member counting from zero if absent.
    Increment { board: Board, member: String, delta: i64 },
    /// Remove the whole collection.
    Clear { board: Board },
    /// Set the member's score.
    Insert { board: Board, member: String, score: i64 },
}

/// What a command does, with the member as text.
pub enum StoreOp {
    Increment(Board, Seq<char>, int),
    Clear(Board),
    Insert(Board, Seq<char>, int),
}

impl View for StoreCommand {
    type V = StoreOp;

    open spec fn view(&self) -> StoreOp {
        match self {
            StoreCommand::Increment { board, member, delta } => StoreOp::Increment(
                *board,
                member@,
                *delta as int,
            ),
            StoreCommand::Clear { board } => StoreOp::Clear(*board),
            StoreCommand::Insert { board, member, score } => StoreOp::Insert(
                *board,
                member@,
                *score as int,
            ),
        }
    }
}

/// The contents of the ranked store: a score for each (collection, member).
pub type Scores = Map<(Board, Seq<char>), int>;

/// The score of a member, zero when the member is absent.
pub open spec fn score(s: Scores, b: Board, m: Seq<char>) -> int {
    if s.contains_key((b, m)) {
        s[(b, m)]
    } else {
        0
    }
}

/// The store after one command.
pub open spec fn apply_op(s: Scores, op: StoreOp) -> Scores {
    match op {
        StoreOp::Increment(b, m, d) => s.insert((b, m), score(s, b, m) + d),
        StoreOp::Clear(b) => Map::new(|k: (Board, Seq<char>)| s.contains_key(k) && k.0 != b, |k| s[k]),
        StoreOp::Insert(b, m, v) => s.insert((b, m), v),
    }
}

/// The store after a sequence of commands, applied in order.
pub open spec fn apply_ops(s: Scores, ops: Seq<StoreOp>) -> Scores
    decreases ops.len(),
{
    if ops.len() == 0 {
        s
    } else {
        apply_op(apply_ops(s, ops.drop_last()), ops.last())
    }
}

/// The operations of a sequence of commands.
pub open spec fn ops_of(cmds: Seq<StoreCommand>) -> Seq<StoreOp> {
    cmds.map_values(|c: StoreCommand| c@)
}

/// The command that adds one to the score of the member with id `id`.
pub fn increment_one(board: Board, id: i64) -> (r: StoreCommand)
    ensures
        r@ == StoreOp::Increment(board, decimal_text(id as int), 1),
{
    StoreCommand::Increment { board, member: render_i64(id), delta: 1 }
}

/// Whether every operation of `ops` is an increment.
pub open spec fn all_increments(ops: Seq<StoreOp>) -> bool {
    forall|i: int| 0 <= i < ops.len() ==> (#[trigger] ops[i]) is Increment
}

/// What the increments of `ops` add to the entry `k`.
pub open spec fn added(ops: Seq<StoreOp>, k: (Board, Seq<char>)) -> int
    decreases ops.len(),
{
    if ops.len() == 0 {
        0
    } else {
        added(ops.drop_last(), k) + match ops.last() {
            StoreOp::Increment(b, m, d) => if (b, m) == k {
                d
            } else {
                0
            },
            _ => 0,
        }
    }
}

/// Whether some increment of `ops` is to the entry `k`.
pub open spec fn touches(ops: Seq<StoreOp>, k: (Board, Seq<char>)) -> bool
    decreases ops.len(),
{
    if ops.len() == 0 {
        false
    } else {
        touches(ops.drop_last(), k) || match ops.last() {
            StoreOp::Increment(b, m, _) => (b, m) == k,
            _ => false,
        }
    }
}

proof fn lemma_increments_closed_form(s: Scores, ops: Seq<StoreOp>, k: (Board, Seq<char>))
    requires
        all_increments(ops),
    ensures
        apply_ops(s, ops).contains_key(k) <==> (s.contains_key(k) || touches(ops, k)),
        score(apply_ops(s, ops), k.0, k.1) == score(s, k.0, k.1) + added(ops, k),
    decreases ops.len(),
{
    if ops.len() > 0 {
        let p = ops.drop_last();
        assert(all_increments(p)) by {
            assert forall|i: int| 0 <= i < p.len() implies (#[trigger] p[i]) is Increment by {
                assert(ops[i] is Increment);
            }
        }
        assert(ops[ops.len() - 1] is Increment);
        lemma_increments_closed_form(s, p, k);
    }
}

proof fn lemma_added_concat(a: Seq<StoreOp>, b: Seq<StoreOp>, k: (Board, Seq<char>))
    ensures
        added(a + b, k) == added(a, k) + added(b, k),
        touches(a + b, k) == (touches(a, k) || touches(b, k)),
    decreases b.len(),
{
    if b.len() == 0 {
        assert(a + b =~= a);
    } else {
        lemma_added_concat(a, b.drop_last(), k);
        assert((a + b).drop_last() =~= a + b.drop_last());
        assert((a + b).last() == b.last());
    }
}

/// Two runs of increments give the same store in either order: realtime
/// updates do not depend on the order in which events are handled.
pub proof fn lemma_increment_runs_commute(s: Scores, a: Seq<StoreOp>, b: Seq<StoreOp>)
    requires
        all_increments(a),
        all_increments(b),
    ensures
        apply_ops(s, a + b) == apply_ops(s, b + a),
{
    assert(all_increments(a + b)) by {
        assert forall|i: int| 0 <= i < (a + b).len() implies (#[trigger] (a + b)[i]) is Increment by {
            if i < a.len() {
                assert(a[i] is Increment);
            } else {
                assert(b[i - a.len()] is Increment);
            }
        }
    }
    assert(all_increments(b + a)) by {
        assert forall|i: int| 0 <= i < (b + a).len() implies (#[trigger] (b + a)[i]) is Increment by {
            if i < b.len() {
                assert(b[i] is Increment);
            } else {
                assert(a[i - b.len()] is Increment);
            }
        }
    }
    let x = apply_ops(s, a + b);
    let y = apply_ops(s, b + a);
    assert forall|k: (Board, Seq<char>)| x.contains_key(k) <==> y.contains_key(k) by {
        lemma_increments_closed_form(s, a + b, k);
        lemma_increments_closed_form(s, b + a, k);
        lemma_added_concat(a, b, k);
        lemma_added_concat(b, a, k);
    }
    assert forall|k: (Board, Seq<char>)| #[trigger] x.contains_key(k) implies x[k] == y[k] by {
        lemma_increments_closed_form(s, a + b, k);
        lemma_increments_closed_form(s, b + a, k);
        lemma_added_concat(a, b, k);
        lemma_added_concat(b, a, k);
    }
    assert(x =~= y);
}

} // verus!
