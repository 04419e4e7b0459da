use vstd::prelude::*;
use crate::clock::now_micros;
use crate::forum::{Forum, ForumError, ForumView, Reply, replies_in_thread};
use crate::threads::page_of;

verus! {

/// A reply as shown in its thread: its poster's name and ban flag, and the
/// id, body and status of the reply it answers, if any.
#[derive(Debug)]
pub struct ReplyResponse {
    pub id: i32,
    pub body: String,
    pub reply_to: Option<(i32, String, i32)>,
    pub thread_id: i32,
    pub poster: i32,
    pub poster_username: String,
    pub poster_is_banned: bool,
    /// Microseconds since the Unix epoch.
    pub updated_at: i64,
    pub reply_status: i32,
}

/// The replies of `rs` that belong to thread `thread_id`, in the order of `rs`.
pub open spec fn replies_of(rs: Seq<Reply>, thread_id: i32) -> Seq<Reply>
    decreases rs.len(),
{
    if rs.len() == 0 {
        Seq::empty()
    } else if rs.last().thread_id == thread_id {
        replies_of(rs.drop_last(), thread_id).push(rs.last())
    } else {
        replies_of(rs.drop_last(), thread_id)
    }
}

/// The replies of a thread, oldest first.
pub open spec fn thread_replies(f: ForumView, thread_id: i32) -> Seq<Reply> {
    replies_of(f.replies, thread_id)
}

/// The id, stored body and stored status of the reply that `r` answers.
pub open spec fn parent_of(f: ForumView, r: Reply) -> Option<(i32, String, i32)> {
    match r.reply_to {
        Some(p) => Some((p, f.reply(p).body, f.reply(p).reply_status)),
        None => None,
    }
}

/// How `r` is shown in its thread.
pub open spec fn reply_row(f: ForumView, r: Reply) -> ReplyResponse {
    ReplyResponse {
        id: r.id,
        body: r.body,
        reply_to: parent_of(f, r),
        thread_id: r.thread_id,
        poster: r.poster,
        poster_username: f.user(r.poster).name,
        poster_is_banned: f.user(r.poster).is_banned,
        updated_at: r.updated_at,
        reply_status: r.reply_status,
    }
}

/// What a joined parent lookup gave: all three parts or none of them.
pub open spec fn parent_triple(
    reply_to_id: Option<i32>,
    parent_body: Option<String>,
    parent_status: Option<i32>,
) -> Result<Option<(i32, String, i32)>, ForumError> {
    match (reply_to_id, parent_body, parent_status) {
        (Some(id), Some(text), Some(status)) => Ok(Some((id, text, status))),
        (None, None, None) => Ok(None),
        _ => Err(ForumError::IntegrityFault),
    }
}

/// Puts together the parent of a reply from a joined lookup; a partial triple
/// is a broken reference and an `IntegrityFault`.
pub fn resolve_parent(
    reply_to_id: Option<i32>,
    parent_body: Option<String>,
    parent_status: Option<i32>,
) -> (r: Result<Option<(i32, String, i32)>, ForumError>)
    ensures
        r == parent_triple(reply_to_id, parent_body, parent_status),
{
    match (reply_to_id, parent_body, parent_status) {
        (Some(id), Some(text), Some(status)) => Ok(Some((id, text, status))),
        (None, None, None) => Ok(None),
        _ => Err(ForumError::IntegrityFault),
    }
}

proof fn lemma_replies_of(rs: Seq<Reply>, thread_id: i32)
    requires
        forall|i: int| 0 <= i < rs.len() ==> (#[trigger] rs[i]).id == i + 1,
    ensures
        replies_of(rs, thread_id).len() == replies_in_thread(rs, thread_id),
        forall|t: Reply| #[trigger]
            replies_of(rs, thread_id).contains(t) <==> rs.contains(t) && t.thread_id == thread_id,
        forall|i: int|
            0 <= i < replies_of(rs, thread_id).len() ==> 1 <= #[trigger] replies_of(
                rs,
                thread_id,
            )[i].id <= rs.len(),
        forall|i: int, j: int|
            0 <= i < j < replies_of(rs, thread_id).len() ==> (#[trigger] replies_of(rs, thread_id)[i]).id
                < (#[trigger] replies_of(rs, thread_id)[j]).id,
    decreases rs.len(),
{
    if rs.len() > 0 {
        let pre = rs.drop_last();
        lemma_replies_of(pre, thread_id);
        let l = replies_of(pre, thread_id);
        let r = replies_of(rs, thread_id);
        assert forall|t: Reply| #[trigger] r.contains(t) <==> rs.contains(t) && t.thread_id
            == thread_id by {
            if rs.contains(t) {
                let i = choose|i: int| 0 <= i < rs.len() && rs[i] == t;
                if i < rs.len() - 1 {
                    assert(pre[i] == t);
                    if t.thread_id == thread_id {
                        assert(l.contains(t));
                        let j = choose|j: int| 0 <= j < l.len() && l[j] == t;
                        assert(r[j] == t);
                    }
                } else if t.thread_id == thread_id {
                    assert(r[r.len() - 1] == t);
                }
            }
            if r.contains(t) {
                let j = choose|j: int| 0 <= j < r.len() && r[j] == t;
                if j < l.len() {
                    assert(l.contains(t));
                    let i = choose|i: int| 0 <= i < pre.len() && pre[i] == t;
                    assert(rs[i] == t);
                } else {
                    assert(rs[rs.len() - 1] == t);
                }
            }
        }
        assert(rs.push(rs.last()).drop_last() =~= rs);
    }
}

/// The replies of a thread, in ascending id order: each reply of the thread
/// once, and as many as the thread's counter says.
pub proof fn lemma_thread_replies(f: ForumView, thread_id: i32)
    requires
        f.wf(),
    ensures
        forall|r: Reply| #[trigger]
            thread_replies(f, thread_id).contains(r) <==> f.replies.contains(r) && r.thread_id
                == thread_id,
        forall|i: int, j: int|
            0 <= i < j < thread_replies(f, thread_id).len() ==> (#[trigger] thread_replies(
                f,
                thread_id,
            )[i]).id < (#[trigger] thread_replies(f, thread_id)[j]).id,
        f.has_thread(thread_id) ==> thread_replies(f, thread_id).len() == f.thread(
            thread_id,
        ).num_replies,
{
    assert forall|i: int| 0 <= i < f.replies.len() implies (#[trigger] f.replies[i]).id == i
        + 1 by {
        assert(f.reply_wf(i));
    }
    lemma_replies_of(f.replies, thread_id);
    if f.has_thread(thread_id) {
        assert(f.thread_wf(thread_id - 1));
    }
}

/// The replies of thread `thread_id`, in stored order.
fn collect_thread_replies(forum: &Forum, thread_id: i32) -> (out: Vec<Reply>)
    requires
        forum@.wf(),
    ensures
        out@ == thread_replies(forum@, thread_id),
{
    let n = forum.num_replies();
    let mut out: Vec<Reply> = Vec::new();
    let mut i: usize = 0;
    proof {
        assert(forum@.replies.subrange(0, 0) =~= Seq::<Reply>::empty());
    }
    while i < n
        invariant
            n == forum@.replies.len(),
            i <= n,
            out@ == replies_of(forum@.replies.subrange(0, i as int), thread_id),
        decreases n - i,
    {
        let ghost next = forum@.replies.subrange(0, i + 1);
        proof {
            assert(next.drop_last() =~= forum@.replies.subrange(0, i as int));
        }
        let r = forum.reply_at(i);
        if r.thread_id == thread_id {
            out.push(r.duplicate());
        }
        i += 1;
    }
    proof {
        assert(forum@.replies.subrange(0, n as int) =~= forum@.replies);
    }
    out
}

/// Page `page_number` of thread `thread_id`, `page_size` replies a page, oldest
/// first, each with its poster and the reply it answers. A parent reference that
/// cannot be resolved would be an `IntegrityFault`; a well-formed forum has none.
pub fn find_paginated(forum: &Forum, thread_id: i32, page_size: u64, page_number: u64) -> (r: Result<
    Vec<ReplyResponse>,
    ForumError,
>)
    requires
        forum@.wf(),
    ensures
        r matches Ok(rows) && {
            let page = page_of(thread_replies(forum@, thread_id), page_size as nat, page_number as nat);
            &&& rows@.len() == page.len()
            &&& forall|i: int| 0 <= i < rows@.len() ==> #[trigger] rows@[i] == reply_row(forum@, page[i])
            &&& forall|i: int, j: int|
                0 <= i < j < rows@.len() ==> (#[trigger] rows@[i]).id < (#[trigger] rows@[j]).id
            &&& forall|i: int|
                0 <= i < rows@.len() ==> match (#[trigger] rows@[i]).reply_to {
                    Some((p, body, status)) => page[i].reply_to == Some(p) && forum@.has_reply(p)
                        && body == forum@.reply(p).body && status == forum@.reply(p).reply_status,
                    None => page[i].reply_to is None,
                }
        },
{
    let all = collect_thread_replies(forum, thread_id);
    let ghost s = thread_replies(forum@, thread_id);
    let ghost page = page_of(s, page_size as nat, page_number as nat);
    let n = all.len();
    let start: usize = match page_size.checked_mul(page_number) {
        Some(offset) => if offset < n as u64 {
            offset as usize
        } else {
            n
        },
        None => n,
    };
    let end: usize = if page_size < (n - start) as u64 {
        start + page_size as usize
    } else {
        n
    };
    proof {
        lemma_thread_replies(forum@, thread_id);
        assert(page =~= s.subrange(start as int, end as int));
    }
    let mut rows: Vec<ReplyResponse> = Vec::new();
    let mut i: usize = start;
    while i < end
        invariant
            forum@.wf(),
            all@ == s,
            s == thread_replies(forum@, thread_id),
            page == s.subrange(start as int, end as int),
            forall|t: Reply| #[trigger] s.contains(t) ==> forum@.replies.contains(t),
            forall|a: int, b: int| 0 <= a < b < s.len() ==> (#[trigger] s[a]).id < (#[trigger] s[b]).id,
            start <= i <= end,
            end <= s.len(),
            rows@.len() == i - start,
            forall|j: int| 0 <= j < rows@.len() ==> #[trigger] rows@[j] == reply_row(forum@, page[j]),
        decreases end - i,
    {
        let x = &all[i];
        proof {
            assert(s.contains(s[i as int]));
            let w = choose|w: int| 0 <= w < forum@.replies.len() && forum@.replies[w] == s[i as int];
            assert(forum@.reply_wf(w));
        }
        let (name, banned) = match forum.user_by_id(x.poster) {
            Some(u) => (u.name.clone(), u.is_banned),
            None => (String::new(), false),
        };
        let (parent_body, parent_status) = match x.reply_to {
            Some(p) => match forum.reply_by_id(p) {
                Some(parent) => (Some(parent.body.clone()), Some(parent.reply_status)),
                None => (None, None),
            },
            None => (None, None),
        };
        let parent = resolve_parent(x.reply_to, parent_body, parent_status)?;
        rows.push(
            ReplyResponse {
                id: x.id,
                body: x.body.clone(),
                reply_to: parent,
                thread_id: x.thread_id,
                poster: x.poster,
                poster_username: name,
                poster_is_banned: banned,
                updated_at: x.updated_at,
                reply_status: x.reply_status,
            },
        );
        i += 1;
    }
    proof {
        assert forall|a: int, b: int| 0 <= a < b < rows@.len() implies (#[trigger] rows@[a]).id < (
        #[trigger] rows@[b]).id by {
            assert(page[a] == s[start + a]);
            assert(page[b] == s[start + b]);
        }
        assert forall|a: int| 0 <= a < rows@.len() implies match (#[trigger] rows@[a]).reply_to {
            Some((p, body, status)) => page[a].reply_to == Some(p) && forum@.has_reply(p) && body
                == forum@.reply(p).body && status == forum@.reply(p).reply_status,
            None => page[a].reply_to is None,
        } by {
            assert(page[a] == s[start + a]);
            assert(s.contains(s[start + a]));
            let w = choose|w: int| 0 <= w < forum@.replies.len() && forum@.replies[w] == s[start + a];
            assert(forum@.reply_wf(w));
        }
    }
    Ok(rows)
}

/// Stores a reply stamped with the current time and bumps its thread's
/// counter; see `Forum::create_reply_at`.
pub fn create(
    forum: &mut Forum,
    body: String,
    thread_id: i32,
    poster: i32,
    reply_to: Option<i32>,
) -> (r: Result<Reply, ForumError>)
    requires
        old(forum)@.wf(),
        old(forum)@.replies.len() < i32::MAX,
    ensures
        final(forum)@.wf(),
        r is Ok <==> old(forum)@.reply_admissible(thread_id, poster, reply_to),
        r is Err ==> r == Err::<Reply, ForumError>(
            old(forum)@.reply_refusal(thread_id, poster, reply_to),
        ) && final(forum)@ == old(forum)@,
        r matches Ok(x) ==> ForumView::reply_creation(
            old(forum)@,
            final(forum)@,
            x,
            body,
            thread_id,
            poster,
            reply_to,
            x.updated_at,
        ),
{
    let now = now_micros();
    forum.create_reply_at(body, thread_id, poster, reply_to, now)
}

} // verus!
