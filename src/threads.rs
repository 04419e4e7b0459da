use vstd::prelude::*;
use crate::clock::now_micros;
use crate::forum::{Forum, ForumError, ForumView, Thread, threads_on_board};

verus! {

/// A thread as listed on its board, with its poster's display name.
#[derive(Debug)]
pub struct ThreadWithPosterName {
    pub id: i32,
    pub title: String,
    pub description: String,
    pub board_id: i32,
    pub poster: i32,
    pub poster_username: String,
    /// Microseconds since the Unix epoch.
    pub last_active: i64,
    pub num_replies: i32,
}

/// Whether `a` is listed before `b`: more recently active first, and of two
/// threads active at the same instant the newer (higher id) first.
pub open spec fn ranks_before(a: Thread, b: Thread) -> bool {
    a.last_active > b.last_active || (a.last_active == b.last_active && a.id > b.id)
}

pub open spec fn strictly_ranked(s: Seq<Thread>) -> bool {
    forall|i: int, j: int| 0 <= i < j < s.len() ==> ranks_before(#[trigger] s[i], #[trigger] s[j])
}

/// `x` placed into the ranked sequence `s` in front of the first thread it ranks before.
pub open spec fn insert_ranked(s: Seq<Thread>, x: Thread) -> Seq<Thread>
    decreases s.len(),
{
    if s.len() == 0 {
        seq![x]
    } else if ranks_before(x, s[0]) {
        seq![x] + s
    } else {
        seq![s[0]] + insert_ranked(s.drop_first(), x)
    }
}

/// The threads of `ts` that belong to board `board_id`, in listing order.
pub open spec fn listing_of(ts: Seq<Thread>, board_id: i32) -> Seq<Thread>
    decreases ts.len(),
{
    if ts.len() == 0 {
        Seq::empty()
    } else if ts.last().board_id == board_id {
        insert_ranked(listing_of(ts.drop_last(), board_id), ts.last())
    } else {
        listing_of(ts.drop_last(), board_id)
    }
}

/// All threads of a board, most recently active first.
pub open spec fn board_listing(f: ForumView, board_id: i32) -> Seq<Thread> {
    listing_of(f.threads, board_id)
}

pub open spec fn min_int(a: int, b: int) -> int {
    if a <= b {
        a
    } else {
        b
    }
}

pub open spec fn max_int(a: int, b: int) -> int {
    if a >= b {
        a
    } else {
        b
    }
}

/// Page `p` of `s` with pages of `k` items: items `k p` up to `k p + k`, as far as `s` goes.
pub open spec fn page_of<T>(s: Seq<T>, k: nat, p: nat) -> Seq<T> {
    s.subrange(min_int((k * p) as int, s.len() as int), min_int((k * p + k) as int, s.len() as int))
}

/// How `t` is shown in a board listing.
pub open spec fn thread_row(f: ForumView, t: Thread) -> ThreadWithPosterName {
    ThreadWithPosterName {
        id: t.id,
        title: t.title,
        description: t.description,
        board_id: t.board_id,
        poster: t.poster,
        poster_username: f.user(t.poster).name,
        last_active: t.last_active,
        num_replies: t.num_replies,
    }
}

proof fn lemma_insert_ranked_contents(s: Seq<Thread>, x: Thread)
    ensures
        insert_ranked(s, x).len() == s.len() + 1,
        forall|t: Thread| #[trigger] insert_ranked(s, x).contains(t) <==> s.contains(t) || t == x,
    decreases s.len(),
{
    if s.len() > 0 && !ranks_before(x, s[0]) {
        let rest = s.drop_first();
        lemma_insert_ranked_contents(rest, x);
        let r = insert_ranked(s, x);
        assert forall|t: Thread| #[trigger] r.contains(t) <==> s.contains(t) || t == x by {
            if r.contains(t) {
                let i = choose|i: int| 0 <= i < r.len() && r[i] == t;
                if i > 0 {
                    assert(insert_ranked(rest, x)[i - 1] == t);
                    assert(insert_ranked(rest, x).contains(t));
                    if t != x {
                        let j = choose|j: int| 0 <= j < rest.len() && rest[j] == t;
                        assert(s[j + 1] == t);
                    }
                }
            }
            if s.contains(t) {
                let j = choose|j: int| 0 <= j < s.len() && s[j] == t;
                if j == 0 {
                    assert(r[0] == t);
                } else {
                    assert(rest[j - 1] == t);
                    assert(insert_ranked(rest, x).contains(t));
                    let i = choose|i: int|
                        0 <= i < insert_ranked(rest, x).len() && insert_ranked(rest, x)[i] == t;
                    assert(r[i + 1] == t);
                }
            }
            if t == x {
                assert(insert_ranked(rest, x).contains(x));
                let i = choose|i: int|
                    0 <= i < insert_ranked(rest, x).len() && insert_ranked(rest, x)[i] == x;
                assert(r[i + 1] == x);
            }
        }
    } else if s.len() > 0 {
        let r = insert_ranked(s, x);
        assert forall|t: Thread| #[trigger] r.contains(t) <==> s.contains(t) || t == x by {
            if r.contains(t) {
                let i = choose|i: int| 0 <= i < r.len() && r[i] == t;
                if i > 0 {
                    assert(s[i - 1] == t);
                }
            }
            if s.contains(t) {
                let j = choose|j: int| 0 <= j < s.len() && s[j] == t;
                assert(r[j + 1] == t);
            }
            if t == x {
                assert(r[0] == x);
            }
        }
    } else {
        let r = insert_ranked(s, x);
        assert forall|t: Thread| #[trigger] r.contains(t) <==> s.contains(t) || t == x by {
            if t == x {
                assert(r[0] == x);
            }
        }
    }
}

proof fn lemma_insert_ranked_sorted(s: Seq<Thread>, x: Thread)
    requires
        strictly_ranked(s),
        forall|m: int| 0 <= m < s.len() ==> (#[trigger] s[m]).id != x.id,
    ensures
        strictly_ranked(insert_ranked(s, x)),
    decreases s.len(),
{
    let r = insert_ranked(s, x);
    if s.len() == 0 {
    } else if ranks_before(x, s[0]) {
        assert forall|i: int, j: int| 0 <= i < j < r.len() implies ranks_before(
            #[trigger] r[i],
            #[trigger] r[j],
        ) by {
            if i == 0 {
                if j > 1 {
                    assert(ranks_before(s[0], s[j - 1]));
                }
            } else {
                assert(ranks_before(s[i - 1], s[j - 1]));
            }
        }
    } else {
        let rest = s.drop_first();
        let r2 = insert_ranked(rest, x);
        assert forall|i: int, j: int| 0 <= i < j < rest.len() implies ranks_before(
            #[trigger] rest[i],
            #[trigger] rest[j],
        ) by {
            assert(ranks_before(s[i + 1], s[j + 1]));
        }
        assert forall|m: int| 0 <= m < rest.len() implies (#[trigger] rest[m]).id != x.id by {
            assert(s[m + 1].id != x.id);
        }
        lemma_insert_ranked_sorted(rest, x);
        lemma_insert_ranked_contents(rest, x);
        assert(ranks_before(s[0], x));
        assert forall|i: int, j: int| 0 <= i < j < r.len() implies ranks_before(
            #[trigger] r[i],
            #[trigger] r[j],
        ) by {
            if i == 0 {
                let t = r2[j - 1];
                assert(r2.contains(t));
                if t != x {
                    let k = choose|k: int| 0 <= k < rest.len() && rest[k] == t;
                    assert(ranks_before(s[0], s[k + 1]));
                }
            } else {
                assert(r[i] == r2[i - 1]);
                assert(r[j] == r2[j - 1]);
            }
        }
    }
}

/// `insert_ranked` is an insertion in front of the first thread that `x` ranks before.
proof fn lemma_insert_ranked_at(s: Seq<Thread>, x: Thread, k: int)
    requires
        0 <= k <= s.len(),
        forall|m: int| 0 <= m < k ==> !ranks_before(x, #[trigger] s[m]),
        k == s.len() || ranks_before(x, s[k]),
    ensures
        insert_ranked(s, x) == s.insert(k, x),
    decreases s.len(),
{
    if s.len() == 0 {
        assert(insert_ranked(s, x) =~= s.insert(k, x));
    } else if ranks_before(x, s[0]) {
        if k > 0 {
            assert(!ranks_before(x, s[0]));
        }
        assert(insert_ranked(s, x) =~= s.insert(k, x));
    } else {
        let rest = s.drop_first();
        assert forall|m: int| 0 <= m < k - 1 implies !ranks_before(x, #[trigger] rest[m]) by {
            assert(!ranks_before(x, s[m + 1]));
        }
        if k < s.len() {
            assert(rest[k - 1] == s[k]);
        }
        lemma_insert_ranked_at(rest, x, k - 1);
        assert(insert_ranked(s, x) =~= s.insert(k, x));
    }
}

/// The listing holds each thread of the board once, in strict listing order.
proof fn lemma_listing_of(ts: Seq<Thread>, board_id: i32)
    requires
        forall|i: int| 0 <= i < ts.len() ==> (#[trigger] ts[i]).id == i + 1,
    ensures
        strictly_ranked(listing_of(ts, board_id)),
        listing_of(ts, board_id).len() == threads_on_board(ts, board_id),
        forall|t: Thread| #[trigger]
            listing_of(ts, board_id).contains(t) <==> ts.contains(t) && t.board_id == board_id,
        forall|t: Thread| #[trigger] listing_of(ts, board_id).contains(t) ==> 1 <= t.id <= ts.len(),
    decreases ts.len(),
{
    if ts.len() > 0 {
        let pre = ts.drop_last();
        let x = ts.last();
        lemma_listing_of(pre, board_id);
        let l = listing_of(pre, board_id);
        if x.board_id == board_id {
            assert forall|m: int| 0 <= m < l.len() implies (#[trigger] l[m]).id != x.id by {
                assert(l.contains(l[m]));
            }
            lemma_insert_ranked_sorted(l, x);
            lemma_insert_ranked_contents(l, x);
        }
        let r = listing_of(ts, board_id);
        assert forall|t: Thread| #[trigger] r.contains(t) <==> ts.contains(t) && t.board_id
            == board_id by {
            if ts.contains(t) {
                let i = choose|i: int| 0 <= i < ts.len() && ts[i] == t;
                if i < ts.len() - 1 {
                    assert(pre[i] == t);
                }
            }
            if pre.contains(t) {
                let i = choose|i: int| 0 <= i < pre.len() && pre[i] == t;
                assert(ts[i] == t);
            }
        }
    }
}

/// Paging a board's listing. The listing holds every thread of the board once,
/// most recently active first. With pages of `k > 0` threads, page `p` holds
/// `min(k, max(0, N - k p))` threads of the board's `N`, the `i`-th of them being
/// the listing's `(k p + i)`-th; the `i`-th thread of the listing stands on page
/// `i / k`, and from page `ceil(N / k)` (that is `(N + k - 1) / k`) on the pages
/// are empty. So the pages `0 .. ceil(N / k) - 1` together give every thread of
/// the board exactly once, in listing order.
pub proof fn lemma_board_pages(f: ForumView, board_id: i32, k: nat)
    requires
        f.wf(),
        k > 0,
    ensures
        ({
            let s = board_listing(f, board_id);
            let n = s.len() as int;
            &&& n == threads_on_board(f.threads, board_id)
            &&& forall|t: Thread| #[trigger]
                s.contains(t) <==> f.threads.contains(t) && t.board_id == board_id
            &&& forall|i: int, j: int|
                0 <= i < j < n ==> (#[trigger] s[i]).last_active >= (#[trigger] s[j]).last_active
                    && s[i] != s[j]
            &&& forall|p: nat| #[trigger]
                page_of(s, k, p).len() == min_int(k as int, max_int(0, n - k * p))
            &&& forall|p: nat, i: int|
                0 <= i < page_of(s, k, p).len() ==> #[trigger] page_of(s, k, p)[i] == s[k * p + i]
            &&& forall|i: int|
                0 <= i < n ==> #[trigger] page_of(s, k, (i / (k as int)) as nat)[i % (k as int)]
                    == s[i]
            &&& forall|p: nat| p >= (n + k - 1) / (k as int) ==> #[trigger] page_of(s, k, p).len() == 0
        }),
{
    let s = board_listing(f, board_id);
    let n = s.len() as int;
    assert forall|i: int| 0 <= i < f.threads.len() implies (#[trigger] f.threads[i]).id == i
        + 1 by {
        assert(f.thread_wf(i));
    }
    lemma_listing_of(f.threads, board_id);
    assert forall|i: int, j: int| 0 <= i < j < n implies (#[trigger] s[i]).last_active >= (
    #[trigger] s[j]).last_active && s[i] != s[j] by {
        assert(ranks_before(s[i], s[j]));
    }
    assert forall|p: nat| #[trigger] page_of(s, k, p).len() == min_int(
        k as int,
        max_int(0, n - k * p),
    ) by {
        assert(k * p >= 0) by (nonlinear_arith)
            requires
                k > 0,
        ;
    }
    assert forall|i: int| 0 <= i < n implies #[trigger] page_of(s, k, (i / (k as int)) as nat)[i
        % (k as int)] == s[i] by {
        let kk = k as int;
        let p = i / kk;
        let q = i % kk;
        assert(i == kk * p + q && 0 <= q < kk && 0 <= p <= i) by (nonlinear_arith)
            requires
                kk > 0,
                0 <= i,
                p == i / kk,
                q == i % kk,
        ;
        assert(kk * p <= i && i < kk * p + kk);
        assert(k * (p as nat) == kk * p);
    }
    assert forall|p: nat| p >= (n + k - 1) / (k as int) implies #[trigger] page_of(s, k, p).len()
        == 0 by {
        let kk = k as int;
        let c = (n + k - 1) / kk;
        let r = (n + k - 1) % kk;
        assert(kk * p >= n) by (nonlinear_arith)
            requires
                kk > 0,
                n >= 0,
                c == (n + kk - 1) / kk,
                r == (n + kk - 1) % kk,
                p >= c,
        {
            assert(n + kk - 1 == kk * c + r && 0 <= r < kk) by (nonlinear_arith)
                requires
                    kk > 0,
                    n + kk - 1 >= 0,
                    c == (n + kk - 1) / kk,
                    r == (n + kk - 1) % kk,
            ;
            assert(kk * p >= kk * c) by (nonlinear_arith)
                requires
                    kk > 0,
                    p >= c,
            ;
        }
        assert(k * p == kk * p);
    }
}

/// Sorts the threads of board `board_id` into listing order.
fn sorted_board_threads(forum: &Forum, board_id: i32) -> (out: Vec<Thread>)
    requires
        forum@.wf(),
    ensures
        out@ == board_listing(forum@, board_id),
{
    let n = forum.num_threads();
    let mut out: Vec<Thread> = Vec::new();
    let mut i: usize = 0;
    proof {
        assert(forum@.threads.subrange(0, 0) =~= Seq::<Thread>::empty());
    }
    while i < n
        invariant
            forum@.wf(),
            n == forum@.threads.len(),
            i <= n,
            out@ == listing_of(forum@.threads.subrange(0, i as int), board_id),
        decreases n - i,
    {
        let ghost pre = forum@.threads.subrange(0, i as int);
        let ghost next = forum@.threads.subrange(0, i + 1);
        proof {
            assert(next.drop_last() =~= pre);
            assert forall|m: int| 0 <= m < pre.len() implies (#[trigger] pre[m]).id == m + 1 by {
                assert(forum@.thread_wf(m));
            }
            assert(forum@.thread_wf(i as int));
            lemma_listing_of(pre, board_id);
        }
        let t = forum.thread_at(i);
        if t.board_id == board_id {
            let m = out.len();
            let mut k: usize = 0;
            while k < m && !(t.last_active > out[k].last_active || (t.last_active
                == out[k].last_active && t.id > out[k].id))
                invariant
                    m == out@.len(),
                    k <= m,
                    forall|j: int| 0 <= j < k ==> !ranks_before(*t, #[trigger] out@[j]),
                decreases m - k,
            {
                k += 1;
            }
            proof {
                lemma_insert_ranked_at(out@, *t, k as int);
            }
            out.insert(k, t.duplicate());
        }
        proof {
            assert(next.last() == forum@.threads[i as int]);
        }
        i += 1;
    }
    proof {
        assert(forum@.threads.subrange(0, n as int) =~= forum@.threads);
    }
    out
}

/// Page `page_number` of board `board_id`, `page_size` threads a page, most
/// recently active first, each with its poster's name.
pub fn find_paginated(forum: &Forum, board_id: i32, page_size: u64, page_number: u64) -> (r: Vec<
    ThreadWithPosterName,
>)
    requires
        forum@.wf(),
    ensures
        r@.len() == page_of(board_listing(forum@, board_id), page_size as nat, page_number as nat).len(),
        forall|i: int|
            0 <= i < r@.len() ==> #[trigger] r@[i] == thread_row(
                forum@,
                page_of(board_listing(forum@, board_id), page_size as nat, page_number as nat)[i],
            ),
{
    let sorted = sorted_board_threads(forum, board_id);
    let ghost s = board_listing(forum@, board_id);
    let ghost page = page_of(s, page_size as nat, page_number as nat);
    let n = sorted.len();
    let start: usize = match page_size.checked_mul(page_number) {
        Some(offset) => if offset < n as u64 {
            offset as usize
        } else {
            n
        },
        None => n,
    };
    let end: usize = if page_size < (n - start) as u64 {
        start + page_size as usize
    } else {
        n
    };
    proof {
        assert(start == min_int(page_size * page_number, n as int));
        assert(end == min_int(page_size * page_number + page_size, n as int));
        assert forall|i: int| 0 <= i < forum@.threads.len() implies (#[trigger] forum@.threads[i]).id
            == i + 1 by {
            assert(forum@.thread_wf(i));
        }
        lemma_listing_of(forum@.threads, board_id);
    }
    let mut rows: Vec<ThreadWithPosterName> = Vec::new();
    let mut i: usize = start;
    while i < end
        invariant
            forum@.wf(),
            sorted@ == s,
            s == board_listing(forum@, board_id),
            page == s.subrange(start as int, end as int),
            forall|t: Thread| #[trigger] s.contains(t) ==> forum@.threads.contains(t),
            start <= i <= end,
            end <= s.len(),
            rows@.len() == i - start,
            forall|j: int| 0 <= j < rows@.len() ==> #[trigger] rows@[j] == thread_row(forum@, page[j]),
        decreases end - i,
    {
        let t = &sorted[i];
        proof {
            assert(s.contains(s[i as int]));
            let w = choose|w: int| 0 <= w < forum@.threads.len() && forum@.threads[w] == s[i as int];
            assert(forum@.thread_wf(w));
        }
        let name = match forum.user_by_id(t.poster) {
            Some(u) => u.name.clone(),
            None => String::new(),
        };
        rows.push(
            ThreadWithPosterName {
                id: t.id,
                title: t.title.clone(),
                description: t.description.clone(),
                board_id: t.board_id,
                poster: t.poster,
                poster_username: name,
                last_active: t.last_active,
                num_replies: t.num_replies,
            },
        );
        i += 1;
    }
    rows
}

/// Number of threads on board `board_id`, counted afresh.
pub fn count_by_board(forum: &Forum, board_id: i32) -> (r: u64)
    requires
        forum@.wf(),
    ensures
        r == threads_on_board(forum@.threads, board_id),
        r == board_listing(forum@, board_id).len(),
{
    let n = forum.num_threads();
    let mut count: u64 = 0;
    let mut i: usize = 0;
    while i < n
        invariant
            n == forum@.threads.len(),
            n <= i32::MAX,
            i <= n,
            count == threads_on_board(forum@.threads.subrange(0, i as int), board_id),
            count <= i,
        decreases n - i,
    {
        proof {
            assert(forum@.threads.subrange(0, i + 1).drop_last() =~= forum@.threads.subrange(
                0,
                i as int,
            ));
        }
        if forum.thread_at(i).board_id == board_id {
            count += 1;
        }
        i += 1;
    }
    proof {
        assert(forum@.threads.subrange(0, n as int) =~= forum@.threads);
        assert forall|k: int| 0 <= k < forum@.threads.len() implies (#[trigger] forum@.threads[k]).id
            == k + 1 by {
            assert(forum@.thread_wf(k));
        }
        lemma_listing_of(forum@.threads, board_id);
    }
    count
}

/// Creates a thread with its seed reply on board `board_id`, stamped with the
/// current time; see `Forum::create_thread_at`.
pub fn create(
    forum: &mut Forum,
    title: String,
    board_id: i32,
    poster_id: i32,
    initial_reply_text: String,
) -> (r: Result<Thread, ForumError>)
    requires
        old(forum)@.wf(),
        old(forum)@.threads.len() < i32::MAX,
        old(forum)@.replies.len() < i32::MAX,
    ensures
        final(forum)@.wf(),
        r is Ok <==> old(forum)@.has_board(board_id) && old(forum)@.has_user(poster_id),
        r is Err ==> r == Err::<Thread, ForumError>(ForumError::NotFound) && final(forum)@ == old(
            forum,
        )@,
        r matches Ok(t) ==> ForumView::thread_creation(
            old(forum)@,
            final(forum)@,
            t,
            title,
            board_id,
            poster_id,
            initial_reply_text,
            t.last_active,
        ),
{
    let now = now_micros();
    forum.create_thread_at(title, board_id, poster_id, initial_reply_text, now)
}

} // verus!
