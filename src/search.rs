use vstd::prelude::*;
use crate::forum::{Forum, ForumView, Reply, REPLY_LIVE};
use crate::text::{blank, contains_text, is_blank, text_contains};
use crate::threads::min_int;

verus! {

/// A search request: the text to look for and the most results wanted.
#[derive(Debug)]
pub struct SearchQuery {
    pub q: String,
    pub limit: u64,
}

/// One matching reply with its thread, board and poster.
#[derive(Debug)]
pub struct SearchReplyResult {
    pub reply_id: i32,
    pub reply_body: String,
    pub thread_id: i32,
    pub thread_title: String,
    pub board_id: i32,
    pub board_title: String,
    pub poster_id: i32,
    pub poster_name: String,
}

#[derive(Debug)]
pub struct SearchResponse {
    pub results: Vec<SearchReplyResult>,
    pub total_found: usize,
}

/// The number of results a search returns when the request names none.
pub fn default_limit() -> (r: u64)
    ensures
        r == 50,
{
    50
}

/// The live replies of `rs` whose body contains `q`, in the order of `rs`.
pub open spec fn search_hits(rs: Seq<Reply>, q: Seq<char>) -> Seq<Reply>
    decreases rs.len(),
{
    if rs.len() == 0 {
        Seq::empty()
    } else if rs.last().reply_status == REPLY_LIVE && contains_text(rs.last().body@, q) {
        search_hits(rs.drop_last(), q).push(rs.last())
    } else {
        search_hits(rs.drop_last(), q)
    }
}

/// How a matching reply is reported.
pub open spec fn search_row(f: ForumView, r: Reply) -> SearchReplyResult {
    let t = f.thread(r.thread_id);
    SearchReplyResult {
        reply_id: r.id,
        reply_body: r.body,
        thread_id: r.thread_id,
        thread_title: t.title,
        board_id: t.board_id,
        board_title: f.board(t.board_id).title,
        poster_id: r.poster,
        poster_name: f.user(r.poster).name,
    }
}

proof fn lemma_search_hits_prefix(rs: Seq<Reply>, q: Seq<char>, i: int)
    requires
        0 <= i <= rs.len(),
    ensures
        search_hits(rs.subrange(0, i), q).len() <= search_hits(rs, q).len(),
        search_hits(rs, q).subrange(0, search_hits(rs.subrange(0, i), q).len() as int)
            == search_hits(rs.subrange(0, i), q),
    decreases rs.len(),
{
    if i == rs.len() {
        assert(rs.subrange(0, i) =~= rs);
        assert(search_hits(rs, q).subrange(0, search_hits(rs, q).len() as int) =~= search_hits(rs, q));
    } else {
        let pre = rs.drop_last();
        assert(pre.subrange(0, i) =~= rs.subrange(0, i));
        lemma_search_hits_prefix(pre, q, i);
        let h = search_hits(pre, q);
        let m = search_hits(rs.subrange(0, i), q).len() as int;
        assert(search_hits(rs, q).subrange(0, m) =~= h.subrange(0, m));
    }
}

proof fn lemma_search_hits_live(rs: Seq<Reply>, q: Seq<char>)
    ensures
        forall|k: int| 0 <= k < search_hits(rs, q).len() ==> {
            &&& (#[trigger] search_hits(rs, q)[k]).reply_status == REPLY_LIVE
            &&& rs.contains(search_hits(rs, q)[k])
        },
    decreases rs.len(),
{
    if rs.len() > 0 {
        let pre = rs.drop_last();
        lemma_search_hits_live(pre, q);
        assert forall|k: int| 0 <= k < search_hits(rs, q).len() implies rs.contains(
            #[trigger] search_hits(rs, q)[k],
        ) by {
            if k < search_hits(pre, q).len() {
                let t = search_hits(pre, q)[k];
                let j = choose|j: int| 0 <= j < pre.len() && pre[j] == t;
                assert(rs[j] == t);
            } else {
                assert(rs[rs.len() - 1] == search_hits(rs, q)[k]);
            }
        }
    }
}

/// Searches the live replies for `query.q`. A blank query finds nothing; else
/// the first `query.limit` live replies containing the text, in id order, each
/// with its thread, board and poster. Hidden and deleted replies are never found.
pub fn search_replies(forum: &Forum, query: &SearchQuery) -> (r: SearchResponse)
    requires
        forum@.wf(),
    ensures
        r.total_found == r.results@.len(),
        is_blank(query.q@) ==> r.results@.len() == 0,
        !is_blank(query.q@) ==> {
            let hits = search_hits(forum@.replies, query.q@);
            &&& r.results@.len() == min_int(query.limit as int, hits.len() as int)
            &&& forall|i: int|
                0 <= i < r.results@.len() ==> #[trigger] r.results@[i] == search_row(forum@, hits[i])
        },
        forall|i: int|
            0 <= i < r.results@.len() ==> forum@.has_reply(#[trigger] r.results@[i].reply_id)
                && forum@.reply(r.results@[i].reply_id).reply_status == REPLY_LIVE,
{
    if blank(query.q.as_str()) {
        return SearchResponse { results: Vec::new(), total_found: 0 };
    }
    let ghost q = query.q@;
    let ghost all = forum@.replies;
    let n = forum.num_replies();
    let mut results: Vec<SearchReplyResult> = Vec::new();
    let mut i: usize = 0;
    proof {
        assert(all.subrange(0, 0) =~= Seq::<Reply>::empty());
    }
    while i < n && (results.len() as u64) < query.limit
        invariant
            forum@.wf(),
            all == forum@.replies,
            q == query.q@,
            n == all.len(),
            i <= n,
            results@.len() <= query.limit,
            results@.len() == search_hits(all.subrange(0, i as int), q).len(),
            forall|k: int|
                0 <= k < results@.len() ==> #[trigger] results@[k] == search_row(
                    forum@,
                    search_hits(all.subrange(0, i as int), q)[k],
                ),
        decreases n - i,
    {
        let ghost next = all.subrange(0, i + 1);
        proof {
            assert(next.drop_last() =~= all.subrange(0, i as int));
        }
        let x = forum.reply_at(i);
        if x.reply_status == REPLY_LIVE && text_contains(x.body.as_str(), query.q.as_str()) {
            proof {
                assert(forum@.reply_wf(i as int));
                assert(forum@.thread_wf(x.thread_id - 1));
            }
            let t = forum.thread_at((x.thread_id - 1) as usize);
            let board_title = forum.board_at((t.board_id - 1) as usize).title.clone();
            let poster_name = match forum.user_by_id(x.poster) {
                Some(u) => u.name.clone(),
                None => String::new(),
            };
            results.push(
                SearchReplyResult {
                    reply_id: x.id,
                    reply_body: x.body.clone(),
                    thread_id: x.thread_id,
                    thread_title: t.title.clone(),
                    board_id: t.board_id,
                    board_title,
                    poster_id: x.poster,
                    poster_name,
                },
            );
        }
        i += 1;
    }
    proof {
        lemma_search_hits_prefix(all, q, i as int);
        lemma_search_hits_live(all, q);
        if i == n {
            assert(all.subrange(0, n as int) =~= all);
        }
        let hits = search_hits(all, q);
        assert forall|k: int| 0 <= k < results@.len() implies forum@.has_reply(
            #[trigger] results@[k].reply_id,
        ) && forum@.reply(results@[k].reply_id).reply_status == REPLY_LIVE by {
            assert(hits.subrange(0, results@.len() as int)[k] == hits[k]);
            let w = choose|w: int| 0 <= w < all.len() && all[w] == hits[k];
            assert(forum@.reply_wf(w));
        }
    }
    let total_found = results.len();
    SearchResponse { results, total_found }
}

} // verus!
