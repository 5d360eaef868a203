//! The ranking read path: which ranks a page covers, reading back the members
//! that the store returned for them, and joining them with the identity and
//! content records that denormalize them. Entries whose records are missing
//! are dropped; the others keep their order.

use vstd::prelude::*;

use crate::decimal::{parse_i64, parsed_i64};
use crate::tally::CountEntry;

verus! {

/// The page shown when none is asked for.
pub const DEFAULT_PAGE: u64 = 1;

/// The page size used when none is asked for.
pub const DEFAULT_LIMIT: u64 = 10;

/// A user in a ranking of identities.
#[derive(Clone, Debug)]
pub struct TopUser {
    pub user_id: i64,
    pub username: String,
    pub total_likes: i64,
}

/// A piece of content in a ranking of content.
#[derive(Clone, Debug)]
pub struct TopFeed {
    pub feed_id: i64,
    pub user_id: i64,
    pub username: String,
    pub content: String,
    pub count: i64,
}

/// What authoritative storage holds about a piece of content: its owner, the
/// owner's display name, and its text.
#[derive(Clone, Debug)]
pub struct FeedDetails {
    pub user_id: i64,
    pub username: String,
    pub content: String,
}

/// A member and its score as the store's range query returned them.
#[derive(Clone, Debug)]
pub struct RankedMember {
    pub member: String,
    pub score: i64,
}

/// The ranks a page covers, counted from 0, both ends included.
#[derive(Clone, Copy, Debug, PartialEq, Eq, Structural)]
pub struct RankWindow {
    pub start: i64,
    pub stop: i64,
}

/// The query of a ranking page; absent values take their defaults.
#[derive(Clone, Copy, Debug, PartialEq, Eq, Structural)]
pub struct TopQuery {
    pub page: Option<u64>,
    pub limit: Option<u64>,
}

/// The ranks that page `page` (from 1) of `limit` entries covers.
pub open spec fn window_start(page: int, limit: int) -> int {
    (page - 1) * limit
}

pub open spec fn window_stop(page: int, limit: int) -> int {
    (page - 1) * limit + limit - 1
}

/// The ranks of page `page` of `limit` entries; `None` when the page or the
/// limit is 0, or the last rank would not fit in an `i64`.
pub fn rank_window(page: u64, limit: u64) -> (r: Option<RankWindow>)
    ensures
        r is Some <==> page >= 1 && limit >= 1 && window_stop(page as int, limit as int)
            <= i64::MAX,
        r matches Some(w) ==> w.start == window_start(page as int, limit as int) && w.stop
            == window_stop(page as int, limit as int),
{
    if page == 0 || limit == 0 {
        return None;
    }
    let p: u128 = (page - 1) as u128;
    let l: u128 = limit as u128;
    assert(p * l <= 0xffff_ffff_ffff_ffffu128 * 0xffff_ffff_ffff_ffffu128) by (nonlinear_arith)
        requires
            p <= 0xffff_ffff_ffff_ffffu128,
            l <= 0xffff_ffff_ffff_ffffu128,
    ;
    let start = p * l;
    if start + l - 1 > 0x7fff_ffff_ffff_ffff {
        return None;
    }
    Some(RankWindow { start: start as i64, stop: (start + l - 1) as i64 })
}

impl TopQuery {
    pub open spec fn page_or_default(&self) -> u64 {
        match self.page {
            Some(p) => p,
            None => DEFAULT_PAGE,
        }
    }

    pub open spec fn limit_or_default(&self) -> u64 {
        match self.limit {
            Some(l) => l,
            None => DEFAULT_LIMIT,
        }
    }

    /// The ranks this query asks for, with the defaults filled in.
    pub fn window(&self) -> (r: Option<RankWindow>)
        ensures
            r is Some <==> self.page_or_default() >= 1 && self.limit_or_default() >= 1
                && window_stop(self.page_or_default() as int, self.limit_or_default() as int)
                <= i64::MAX,
            r matches Some(w) ==> w.start == window_start(
                self.page_or_default() as int,
                self.limit_or_default() as int,
            ) && w.stop == window_stop(
                self.page_or_default() as int,
                self.limit_or_default() as int,
            ),
    {
        let page = match self.page {
            Some(p) => p,
            None => DEFAULT_PAGE,
        };
        let limit = match self.limit {
            Some(l) => l,
            None => DEFAULT_LIMIT,
        };
        rank_window(page, limit)
    }
}

/// The members that read back as ids, with their scores, in the order given.
pub open spec fn parsed_entries(rs: Seq<RankedMember>) -> Seq<CountEntry>
    decreases rs.len(),
{
    if rs.len() == 0 {
        seq![]
    } else {
        let rest = parsed_entries(rs.drop_last());
        match parsed_i64(rs.last().member@) {
            Some(id) => rest.push(CountEntry { id, count: rs.last().score }),
            None => rest,
        }
    }
}

/// The ranked members that read back as ids; the others are dropped.
pub fn ranked_entries(results: &Vec<RankedMember>) -> (r: Vec<CountEntry>)
    ensures
        r@ == parsed_entries(results@),
{
    let mut r: Vec<CountEntry> = Vec::new();
    let mut i: usize = 0;
    while i < results.len()
        invariant
            i <= results@.len(),
            r@ == parsed_entries(results@.take(i as int)),
        decreases results@.len() - i,
    {
        let m = &results[i];
        let id = parse_i64(m.member.as_str());
        proof {
            assert(results@.take(i + 1).drop_last() =~= results@.take(i as int));
        }
        match id {
            Some(id) => {
                r.push(CountEntry { id, count: m.score });
            },
            None => {},
        }
        i = i + 1;
    }
    assert(results@.take(results@.len() as int) =~= results@);
    r
}

/// The `i`th of the lookups, `None` past their end.
pub open spec fn lookup_at<T>(found: Seq<Option<T>>, i: int) -> Option<T> {
    if 0 <= i < found.len() {
        found[i]
    } else {
        None
    }
}

/// The first `n` ranked entries that have a display name, in order.
pub open spec fn joined_users(rs: Seq<CountEntry>, names: Seq<Option<String>>, n: nat) -> Seq<TopUser>
    decreases n,
{
    if n == 0 {
        seq![]
    } else {
        let rest = joined_users(rs, names, (n - 1) as nat);
        match lookup_at(names, n - 1) {
            Some(name) => rest.push(
                TopUser { user_id: rs[n - 1].id, username: name, total_likes: rs[n - 1].count },
            ),
            None => rest,
        }
    }
}

/// The first `n` ranked entries that have content details, in order.
pub open spec fn joined_feeds(rs: Seq<CountEntry>, details: Seq<Option<FeedDetails>>, n: nat) -> Seq<
    TopFeed,
>
    decreases n,
{
    if n == 0 {
        seq![]
    } else {
        let rest = joined_feeds(rs, details, (n - 1) as nat);
        match lookup_at(details, n - 1) {
            Some(d) => rest.push(
                TopFeed {
                    feed_id: rs[n - 1].id,
                    user_id: d.user_id,
                    username: d.username,
                    content: d.content,
                    count: rs[n - 1].count,
                },
            ),
            None => rest,
        }
    }
}

/// The ranked users that have a display name, in ranking order; `names[i]` is
/// what the lookup of `ranked[i]` found.
pub fn join_top_users(ranked: &Vec<CountEntry>, names: &Vec<Option<String>>) -> (r: Vec<TopUser>)
    ensures
        r@ == joined_users(ranked@, names@, ranked@.len()),
{
    let mut r: Vec<TopUser> = Vec::new();
    let mut i: usize = 0;
    while i < ranked.len()
        invariant
            i <= ranked@.len(),
            r@ == joined_users(ranked@, names@, i as nat),
        decreases ranked@.len() - i,
    {
        if i < names.len() {
            match &names[i] {
                Some(name) => {
                    let e = ranked[i];
                    r.push(TopUser { user_id: e.id, username: name.clone(), total_likes: e.count });
                },
                None => {},
            }
        }
        i = i + 1;
    }
    r
}

/// The ranked content that has details, in ranking order; `details[i]` is what
/// the lookup of `ranked[i]` found.
pub fn join_top_feeds(ranked: &Vec<CountEntry>, details: &Vec<Option<FeedDetails>>) -> (r: Vec<TopFeed>)
    ensures
        r@ == joined_feeds(ranked@, details@, ranked@.len()),
{
    let mut r: Vec<TopFeed> = Vec::new();
    let mut i: usize = 0;
    while i < ranked.len()
        invariant
            i <= ranked@.len(),
            r@ == joined_feeds(ranked@, details@, i as nat),
        decreases ranked@.len() - i,
    {
        if i < details.len() {
            match &details[i] {
                Some(d) => {
                    let e = ranked[i];
                    r.push(
                        TopFeed {
                            feed_id: e.id,
                            user_id: d.user_id,
                            username: d.username.clone(),
                            content: d.content.clone(),
                            count: e.count,
                        },
                    );
                },
                None => {},
            }
        }
        i = i + 1;
    }
    r
}

/// Counts that never increase along the sequence.
pub open spec fn non_increasing(rs: Seq<CountEntry>) -> bool {
    forall|i: int, j: int| 0 <= i < j < rs.len() ==> (#[trigger] rs[i]).count >= (#[trigger] rs[j]).count
}

proof fn lemma_joined_users_order(rs: Seq<CountEntry>, names: Seq<Option<String>>, n: nat)
    requires
        non_increasing(rs),
        n <= rs.len(),
    ensures
        forall|a: int, b: int|
            0 <= a < b < joined_users(rs, names, n).len() ==> (#[trigger] joined_users(
                rs,
                names,
                n,
            )[a]).total_likes >= (#[trigger] joined_users(rs, names, n)[b]).total_likes,
        forall|a: int, j: int|
            0 <= a < joined_users(rs, names, n).len() && n <= j < rs.len() ==> (
            #[trigger] joined_users(rs, names, n)[a]).total_likes >= (#[trigger] rs[j]).count,
    decreases n,
{
    if n > 0 {
        lemma_joined_users_order(rs, names, (n - 1) as nat);
        let rest = joined_users(rs, names, (n - 1) as nat);
        assert forall|a: int, j: int|
            0 <= a < joined_users(rs, names, n).len() && n <= j < rs.len() implies (
            #[trigger] joined_users(rs, names, n)[a]).total_likes >= (#[trigger] rs[j]).count by {
            if a < rest.len() {
                assert(rest[a].total_likes >= rs[j].count);
            } else {
                assert(rs[n - 1].count >= rs[j].count);
            }
        }
        assert forall|a: int, b: int|
            0 <= a < b < joined_users(rs, names, n).len() implies (#[trigger] joined_users(
            rs,
            names,
            n,
        )[a]).total_likes >= (#[trigger] joined_users(rs, names, n)[b]).total_likes by {
            if b < rest.len() {
                assert(rest[a].total_likes >= rest[b].total_likes);
            } else {
                assert(rest[a].total_likes >= rs[n - 1].count);
            }
        }
    }
}

proof fn lemma_joined_feeds_order(rs: Seq<CountEntry>, details: Seq<Option<FeedDetails>>, n: nat)
    requires
        non_increasing(rs),
        n <= rs.len(),
    ensures
        forall|a: int, b: int|
            0 <= a < b < joined_feeds(rs, details, n).len() ==> (#[trigger] joined_feeds(
                rs,
                details,
                n,
            )[a]).count >= (#[trigger] joined_feeds(rs, details, n)[b]).count,
        forall|a: int, j: int|
            0 <= a < joined_feeds(rs, details, n).len() && n <= j < rs.len() ==> (
            #[trigger] joined_feeds(rs, details, n)[a]).count >= (#[trigger] rs[j]).count,
    decreases n,
{
    if n > 0 {
        lemma_joined_feeds_order(rs, details, (n - 1) as nat);
        let rest = joined_feeds(rs, details, (n - 1) as nat);
        assert forall|a: int, j: int|
            0 <= a < joined_feeds(rs, details, n).len() && n <= j < rs.len() implies (
            #[trigger] joined_feeds(rs, details, n)[a]).count >= (#[trigger] rs[j]).count by {
            if a < rest.len() {
                assert(rest[a].count >= rs[j].count);
            } else {
                assert(rs[n - 1].count >= rs[j].count);
            }
        }
        assert forall|a: int, b: int|
            0 <= a < b < joined_feeds(rs, details, n).len() implies (#[trigger] joined_feeds(
            rs,
            details,
            n,
        )[a]).count >= (#[trigger] joined_feeds(rs, details, n)[b]).count by {
            if b < rest.len() {
                assert(rest[a].count >= rest[b].count);
            } else {
                assert(rest[a].count >= rs[n - 1].count);
            }
        }
    }
}

/// Dropping the entries whose records are missing keeps the others in score
/// order: a page read in non-increasing score stays non-increasing after the
/// join, for users and for content alike.
pub proof fn lemma_join_keeps_order(
    ranked: Seq<CountEntry>,
    names: Seq<Option<String>>,
    details: Seq<Option<FeedDetails>>,
)
    requires
        non_increasing(ranked),
    ensures
        forall|a: int, b: int|
            0 <= a < b < joined_users(ranked, names, ranked.len()).len() ==> (
            #[trigger] joined_users(ranked, names, ranked.len())[a]).total_likes >= (
            #[trigger] joined_users(ranked, names, ranked.len())[b]).total_likes,
        forall|a: int, b: int|
            0 <= a < b < joined_feeds(ranked, details, ranked.len()).len() ==> (
            #[trigger] joined_feeds(ranked, details, ranked.len())[a]).count >= (
            #[trigger] joined_feeds(ranked, details, ranked.len())[b]).count,
{
    lemma_joined_users_order(ranked, names, ranked.len());
    lemma_joined_feeds_order(ranked, details, ranked.len());
}

} // verus!
