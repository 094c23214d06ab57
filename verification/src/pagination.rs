//! Cursor-based pagination, shared by the thread and feed read paths.
//!
//! Rows are kept ordered by their sortable unique id, oldest first. A page
//! request considers the rows at or before the cursor (all rows when no
//! cursor is given), returns the newest `limit` of them in ascending
//! chronological order, and, when older rows remain, also returns the newest
//! of those older rows as the next cursor. Walking pages backward from the
//! newest therefore yields disjoint, adjacent pages with no gaps or
//! overlaps — proved in [`lemma_pages_walk_backward`].

use vstd::prelude::*;

use crate::model::{Id, Message, MessageView, message_views};
use crate::store::{
    lemma_filter_empty, lemma_filter_messages_ordered, lemma_filter_push, lemma_filter_take_step,
    messages_ordered,
};

verus! {

/// Holds of a row at or before the cursor; with no cursor, of every row.
pub open spec fn at_or_before_pred(cursor: Option<Id>) -> spec_fn(MessageView) -> bool {
    |m: MessageView|
        match cursor {
            Option::Some(c) => m.message_id <= c,
            Option::None => true,
        }
}

/// The rows a page request considers, oldest first.
pub open spec fn candidates(ms: Seq<MessageView>, cursor: Option<Id>) -> Seq<MessageView> {
    ms.filter(at_or_before_pred(cursor))
}

/// The page: the newest `limit` candidates, oldest first.
pub open spec fn page_of(cand: Seq<MessageView>, limit: int) -> Seq<MessageView> {
    if cand.len() <= limit {
        cand
    } else {
        cand.subrange(cand.len() - limit, cand.len() as int)
    }
}

/// The next cursor: the id of the newest candidate older than the page, when
/// the page did not exhaust the candidates.
pub open spec fn next_cursor_of(cand: Seq<MessageView>, limit: int) -> Option<Id> {
    if cand.len() > limit {
        Option::Some(cand[cand.len() - limit - 1].message_id)
    } else {
        Option::None
    }
}

/// Cut one page out of the given rows, which must be ordered oldest first.
///
/// Returns the page in ascending chronological order and, when older rows
/// remain, the row whose id is the next cursor.
pub fn paginate(rows: Vec<Message>, cursor: Option<Id>, limit: usize) -> (r: (
    Vec<Message>,
    Option<Message>,
))
    ensures
        ({
            let cand = candidates(message_views(rows@), cursor);
            &&& message_views(r.0@) == page_of(cand, limit as int)
            &&& match r.1 {
                Option::Some(c) => next_cursor_of(cand, limit as int) == Option::Some(
                    c@.message_id,
                ) && c@ == cand[cand.len() - limit - 1],
                Option::None => next_cursor_of(cand, limit as int) is None,
            }
        }),
{
    let ghost pred = at_or_before_pred(cursor);
    let mut cand: Vec<Message> = Vec::new();
    let n = rows.len();
    let mut i: usize = 0;
    proof {
        lemma_filter_empty::<MessageView>(pred);
        assert(message_views(rows@).take(0) =~= Seq::<MessageView>::empty());
    }
    while i < n
        invariant
            n == rows@.len(),
            i <= n,
            message_views(cand@) == message_views(rows@).take(i as int).filter(pred),
            pred == at_or_before_pred(cursor),
        decreases n - i,
    {
        let hit = match cursor {
            Option::Some(c) => rows[i].message_id <= c,
            Option::None => true,
        };
        proof {
            lemma_filter_take_step(message_views(rows@), i as int, pred);
            assert(hit == pred(message_views(rows@)[i as int]));
        }
        if hit {
            let ghost old_cand = cand@;
            let row = rows[i].clone();
            cand.push(row);
            proof {
                assert(message_views(cand@) =~= message_views(old_cand).push(
                    message_views(rows@)[i as int],
                ));
            }
        }
        i += 1;
    }
    proof {
        assert(message_views(rows@).take(n as int) =~= message_views(rows@));
    }
    if cand.len() > limit {
        let cut = cand.len() - limit;
        let next = cand[cut - 1].clone();
        let mut page: Vec<Message> = Vec::new();
        let mut j: usize = cut;
        proof {
            assert(message_views(page@) =~= message_views(cand@).subrange(
                cut as int,
                cut as int,
            ));
        }
        while j < cand.len()
            invariant
                cut <= j <= cand@.len(),
                message_views(page@) == message_views(cand@).subrange(cut as int, j as int),
                cut == cand@.len() - limit,
            decreases cand@.len() - j,
        {
            let ghost old_page = page@;
            let row = cand[j].clone();
            page.push(row);
            proof {
                assert(message_views(cand@).subrange(cut as int, j as int + 1) =~= message_views(
                    cand@,
                ).subrange(cut as int, j as int).push(message_views(cand@)[j as int]));
                assert(message_views(page@) =~= message_views(old_page).push(
                    message_views(cand@)[j as int],
                ));
            }
            j += 1;
        }
        (page, Some(next))
    } else {
        (cand, None)
    }
}

/// Filtering leaves a sequence unchanged when the property holds of every
/// element.
proof fn lemma_filter_all<A>(s: Seq<A>, p: spec_fn(A) -> bool)
    requires
        forall|i: int| 0 <= i < s.len() ==> p(#[trigger] s[i]),
    ensures
        s.filter(p) == s,
    decreases s.len(),
{
    reveal(Seq::filter);
    if s.len() > 0 {
        assert(p(s[s.len() - 1]));
        lemma_filter_all(s.drop_last(), p);
        assert(s.drop_last().push(s.last()) =~= s);
    }
}

/// Filtering by a property that entails another commutes past filtering by
/// the weaker one.
proof fn lemma_filter_subsumed<A>(s: Seq<A>, p: spec_fn(A) -> bool, q: spec_fn(A) -> bool)
    requires
        forall|x: A| #[trigger] p(x) ==> q(x),
    ensures
        s.filter(q).filter(p) == s.filter(p),
    decreases s.len(),
{
    reveal(Seq::filter);
    if s.len() > 0 {
        let t = s.drop_last();
        let x = s.last();
        lemma_filter_subsumed(t, p, q);
        if q(x) {
            lemma_filter_push(t.filter(q), x, p);
        } else {
            assert(p(x) ==> q(x));
        }
    }
}

/// In a strictly ordered sequence, the rows at or before the id of the row
/// at index `k - 1` are exactly the first `k` rows.
proof fn lemma_ordered_le_cut(cand: Seq<MessageView>, k: int)
    requires
        messages_ordered(cand),
        1 <= k <= cand.len(),
    ensures
        cand.filter(at_or_before_pred(Option::Some(cand[k - 1].message_id))) == cand.take(k),
    decreases cand.len(),
{
    reveal(Seq::filter);
    let p = at_or_before_pred(Option::Some(cand[k - 1].message_id));
    let n = cand.len() as int;
    if n > k {
        let t = cand.drop_last();
        assert(cand[k - 1] == t[k - 1]);
        assert(cand[k - 1].message_id < cand[n - 1].message_id);
        assert(!p(cand.last()));
        lemma_ordered_le_cut(t, k);
        assert(t.take(k) =~= cand.take(k));
    } else {
        // k == n: every row is at or before the last row's id
        assert forall|i: int| 0 <= i < cand.len() implies p(#[trigger] cand[i]) by {
            if i < k - 1 {
                assert(cand[i].message_id < cand[k - 1].message_id);
            }
        }
        lemma_filter_all(cand, p);
        assert(cand.take(k) =~= cand);
    }
}

/// Law: walking pages backward from the newest yields disjoint, adjacent
/// pages with no gaps or overlaps.
///
/// When a page request over ordered rows returns a next cursor, the
/// candidates of the follow-up request are exactly the candidates of the
/// first request minus the page just returned, and every one of them is
/// strictly older than every row of that page.
pub proof fn lemma_pages_walk_backward(ms: Seq<MessageView>, cursor: Option<Id>, limit: int)
    requires
        messages_ordered(ms),
        1 <= limit,
        next_cursor_of(candidates(ms, cursor), limit) is Some,
    ensures
        ({
            let cand = candidates(ms, cursor);
            let cand2 = candidates(ms, next_cursor_of(cand, limit));
            &&& cand2 == cand.take(cand.len() - limit)
            &&& cand2 + page_of(cand, limit) == cand
            &&& forall|a: int, b: int|
                0 <= a < cand2.len() && 0 <= b < page_of(cand, limit).len()
                    ==> cand2[a].message_id < page_of(cand, limit)[b].message_id
        }),
{
    let p0 = at_or_before_pred(cursor);
    let cand = candidates(ms, cursor);
    let k = cand.len() - limit;
    let c = cand[k - 1].message_id;
    let p1 = at_or_before_pred(Option::Some(c));
    lemma_filter_messages_ordered(ms, p0);
    // every row at or before the new cursor is also a candidate of the old
    // request, because the new cursor itself is
    broadcast use vstd::prelude::Seq::lemma_filter_pred;

    assert(p0(cand[k - 1]));
    assert forall|x: MessageView| #[trigger] p1(x) implies p0(x) by {
        match cursor {
            Option::Some(c0) => {
                assert(cand[k - 1].message_id <= c0);
            },
            Option::None => {},
        }
    }
    lemma_filter_subsumed(ms, p1, p0);
    lemma_ordered_le_cut(cand, k);
    assert(candidates(ms, Option::Some(c)) == cand.take(k));
    assert(cand.take(k) + cand.subrange(k, cand.len() as int) =~= cand);
}

} // verus!
