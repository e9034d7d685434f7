use vstd::prelude::*;

use crate::db::models as dbm;
use crate::db::queries::{author_of, listed_quotes, opt_user_view, quote_views, rank_le,
    recent_quotes, top_quotes, visible_quotes, Store, TOP_QUOTES_LIMIT};
use crate::error::Error;
use crate::graphql::models as gm;
use crate::graphql::models::{quote_out_of, QuoteOutV};

verus! {

/// The query operations of the caller-facing surface.
pub struct Query;

/// Ranking order on the caller-facing shape: more votes first, ties
/// broken by lower id.
pub open spec fn rank_le_out(a: QuoteOutV, b: QuoteOutV) -> bool {
    a.votes > b.votes || (a.votes == b.votes && a.id <= b.id)
}

/// Sorted by the caller-facing ranking order.
pub open spec fn ranked_out(s: Seq<QuoteOutV>) -> bool {
    forall|i: int, j: int| 0 <= i < j < s.len() ==> #[trigger] rank_le_out(s[i], s[j])
}

/// The views of a caller-facing listing.
pub open spec fn out_views(s: Seq<gm::Quote>) -> Seq<QuoteOutV> {
    Seq::new(s.len(), |i: int| s[i]@)
}

/// Whether the listing carries a quote with this id.
pub open spec fn listed_id(outs: Seq<QuoteOutV>, id: i32) -> bool {
    exists|i: int| 0 <= i < outs.len() && (#[trigger] outs[i]).id == id
}

/// Transforms storage rows into the caller-facing quote shape, pointwise
/// and in order.
pub fn transform_quotes(v: Vec<(dbm::Quote, Option<dbm::User>)>) -> (r: Vec<gm::Quote>)
    ensures
        r@.len() == v@.len(),
        forall|i: int| 0 <= i < v@.len() ==> (#[trigger] r@[i])@ == quote_out_of(
            v@[i].0@,
            opt_user_view(v@[i].1),
        ),
{
    let mut out: Vec<gm::Quote> = Vec::new();
    let mut i: usize = 0;
    while i < v.len()
        invariant
            i <= v@.len(),
            out@.len() == i,
            forall|k: int| 0 <= k < i ==> (#[trigger] out@[k])@ == quote_out_of(
                v@[k].0@,
                opt_user_view(v@[k].1),
            ),
        decreases v@.len() - i,
    {
        let q = v[i].0.duplicate();
        let author = match &v[i].1 {
            Some(u) => Some(u.duplicate()),
            None => None,
        };
        let ghost qv = q@;
        let ghost av = opt_user_view(author);
        proof {
            assert(qv == v@[i as int].0@);
            assert(av == opt_user_view(v@[i as int].1));
        }
        let mapped = gm::Quote::from((q, author));
        proof {
            assert(mapped@ == quote_out_of(qv, av));
        }
        out.push(mapped);
        i += 1;
    }
    out
}

impl Query {
    /// The ranked listing, in its caller-facing shape: at most
    /// `TOP_QUOTES_LIMIT` visible quotes, most votes first with ties
    /// broken by lower id, each the public image of a visible stored row
    /// joined with its author; any visible row left out ranks at or
    /// after everything listed. The in-memory storage layer cannot fail,
    /// so the result is always `Ok`.
    pub fn top_quotes(store: &Store) -> (r: Result<Vec<gm::Quote>, Error>)
        requires
            store.wf(),
        ensures
            r is Ok,
            r matches Ok(v) ==> ({
                let vis = visible_quotes(store.quotes_v());
                let outs = out_views(v@);
                &&& (vis.len() >= TOP_QUOTES_LIMIT ==> outs.len() == TOP_QUOTES_LIMIT)
                &&& (vis.len() < TOP_QUOTES_LIMIT ==> outs.len() == vis.len())
                &&& ranked_out(outs)
                &&& forall|i: int| 0 <= i < outs.len() ==> (#[trigger] outs[i]).visible
                &&& forall|i: int|
                    0 <= i < outs.len() ==> (exists|k: int|
                        0 <= k < vis.len() && (#[trigger] outs[i]) == quote_out_of(
                            vis[k],
                            author_of(store.users_v(), vis[k].user_id),
                        ))
                &&& forall|k: int|
                    0 <= k < vis.len() && !listed_id(outs, (#[trigger] vis[k]).id) ==> (forall|
                        i: int,
                    |
                        0 <= i < outs.len() ==> rank_le_out(
                            #[trigger] outs[i],
                            quote_out_of(vis[k], author_of(store.users_v(), vis[k].user_id)),
                        ))
            }),
    {
        let rows = top_quotes(store);
        let ghost rows_v = rows@;
        let out = transform_quotes(rows);
        proof {
            broadcast use vstd::seq_lib::group_to_multiset_ensures;

            let vis = visible_quotes(store.quotes_v());
            let sel = listed_quotes(rows_v);
            let outs = out_views(out@);
            assert forall|i: int| 0 <= i < outs.len() implies (#[trigger] outs[i]) == quote_out_of(
                sel[i],
                author_of(store.users_v(), sel[i].user_id),
            ) by {
                assert(outs[i] == out@[i]@);
                assert(out@[i]@ == quote_out_of(rows_v[i].0@, opt_user_view(rows_v[i].1)));
                assert(sel[i] == rows_v[i].0@);
                assert(opt_user_view(rows_v[i].1) == author_of(store.users_v(), sel[i].user_id));
            }
            assert forall|i: int, j: int| 0 <= i < j < outs.len() implies #[trigger] rank_le_out(
                outs[i],
                outs[j],
            ) by {
                assert(rank_le(sel[i], sel[j]));
            }
            assert forall|i: int|
                0 <= i < outs.len() implies (exists|k: int|
                0 <= k < vis.len() && (#[trigger] outs[i]) == quote_out_of(
                    vis[k],
                    author_of(store.users_v(), vis[k].user_id),
                )) by {
                assert(sel.contains(sel[i]));
                assert(sel.to_multiset().count(sel[i]) > 0);
                assert(vis.to_multiset().count(sel[i]) > 0);
                assert(vis.contains(sel[i]));
                let k = choose|k: int| 0 <= k < vis.len() && vis[k] == sel[i];
                assert(outs[i] == quote_out_of(vis[k], author_of(store.users_v(), vis[k].user_id)));
            }
            assert forall|k: int|
                0 <= k < vis.len() && !listed_id(outs, (#[trigger] vis[k]).id) implies (forall|
                i: int,
            |
                0 <= i < outs.len() ==> rank_le_out(
                    #[trigger] outs[i],
                    quote_out_of(vis[k], author_of(store.users_v(), vis[k].user_id)),
                )) by {
                if sel.to_multiset().count(vis[k]) > 0 {
                    assert(sel.contains(vis[k]));
                    let i = choose|i: int| 0 <= i < sel.len() && sel[i] == vis[k];
                    assert(outs[i].id == vis[k].id);
                    assert(listed_id(outs, vis[k].id));
                    assert(false);
                }
                assert(vis.contains(vis[k]));
                assert(vis.to_multiset().count(vis[k]) > 0);
                assert forall|i: int| 0 <= i < outs.len() implies rank_le_out(
                    #[trigger] outs[i],
                    quote_out_of(vis[k], author_of(store.users_v(), vis[k].user_id)),
                ) by {
                    assert(sel.to_multiset().count(vis[k]) < vis.to_multiset().count(vis[k]));
                    assert(rank_le(sel[i], vis[k]));
                }
            }
        }
        Ok(out)
    }

    /// The recency listing, in its caller-facing shape: every visible
    /// quote, newest id first, each the public image of a visible stored
    /// row joined with its author; unbounded. The in-memory storage
    /// layer cannot fail, so the result is always `Ok`.
    pub fn recent_quotes(store: &Store) -> (r: Result<Vec<gm::Quote>, Error>)
        requires
            store.wf(),
        ensures
            r is Ok,
            r matches Ok(v) ==> ({
                let vis = visible_quotes(store.quotes_v());
                let outs = out_views(v@);
                &&& outs.len() == vis.len()
                &&& forall|i: int| 0 <= i < outs.len() ==> (#[trigger] outs[i]) == quote_out_of(
                    vis[vis.len() - 1 - i],
                    author_of(store.users_v(), vis[vis.len() - 1 - i].user_id),
                )
            }),
    {
        let rows = recent_quotes(store);
        let ghost rows_v = rows@;
        let out = transform_quotes(rows);
        proof {
            let vis = visible_quotes(store.quotes_v());
            let sel = listed_quotes(rows_v);
            let outs = out_views(out@);
            assert(sel.len() == vis.reverse().len());
            assert forall|i: int| 0 <= i < outs.len() implies (#[trigger] outs[i]) == quote_out_of(
                vis[vis.len() - 1 - i],
                author_of(store.users_v(), vis[vis.len() - 1 - i].user_id),
            ) by {
                assert(outs[i] == out@[i]@);
                assert(out@[i]@ == quote_out_of(rows_v[i].0@, opt_user_view(rows_v[i].1)));
                assert(sel[i] == rows_v[i].0@);
                assert(sel[i] == vis.reverse()[i]);
                assert(vis.reverse()[i] == vis[vis.len() - 1 - i]);
                assert(opt_user_view(rows_v[i].1) == author_of(store.users_v(), sel[i].user_id));
            }
        }
        Ok(out)
    }
}

} // verus!
