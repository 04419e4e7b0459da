use vstd::prelude::*;
use crate::forum::{Forum, ForumView, replies_in_thread, threads_on_board};

verus! {

/// Every stored counter equals the count it caches: a board's `num_threads`
/// the threads on it, a thread's `num_replies` its replies of any status.
pub open spec fn counters_match(f: ForumView) -> bool {
    &&& forall|i: int|
        0 <= i < f.boards.len() ==> (#[trigger] f.boards[i]).num_threads == threads_on_board(
            f.threads,
            f.boards[i].id,
        )
    &&& forall|i: int|
        0 <= i < f.threads.len() ==> (#[trigger] f.threads[i]).num_replies == replies_in_thread(
            f.replies,
            f.threads[i].id,
        )
}

/// The counters of a well-formed forum never drift from the rows: the two
/// write paths that insert threads and replies keep them in step, and
/// moderation and edits leave them alone.
pub proof fn lemma_counters_match(f: ForumView)
    requires
        f.wf(),
    ensures
        counters_match(f),
{
    assert forall|i: int| 0 <= i < f.boards.len() implies (#[trigger] f.boards[i]).num_threads
        == threads_on_board(f.threads, f.boards[i].id) by {
        assert(f.board_wf(i));
    }
    assert forall|i: int| 0 <= i < f.threads.len() implies (#[trigger] f.threads[i]).num_replies
        == replies_in_thread(f.replies, f.threads[i].id) by {
        assert(f.thread_wf(i));
    }
}

fn recount_threads(forum: &Forum, board_id: i32) -> (r: usize)
    ensures
        r == threads_on_board(forum@.threads, board_id),
{
    let n = forum.num_threads();
    let mut count: usize = 0;
    let mut i: usize = 0;
    while i < n
        invariant
            n == forum@.threads.len(),
            i <= n,
            count <= i,
            count == threads_on_board(forum@.threads.subrange(0, i as int), board_id),
        decreases n - i,
    {
        assert(forum@.threads.subrange(0, i + 1).drop_last() =~= forum@.threads.subrange(
            0,
            i as int,
        ));
        if forum.thread_at(i).board_id == board_id {
            count += 1;
        }
        i += 1;
    }
    assert(forum@.threads.subrange(0, n as int) =~= forum@.threads);
    count
}

fn recount_replies(forum: &Forum, thread_id: i32) -> (r: usize)
    ensures
        r == replies_in_thread(forum@.replies, thread_id),
{
    let n = forum.num_replies();
    let mut count: usize = 0;
    let mut i: usize = 0;
    while i < n
        invariant
            n == forum@.replies.len(),
            i <= n,
            count <= i,
            count == replies_in_thread(forum@.replies.subrange(0, i as int), thread_id),
        decreases n - i,
    {
        assert(forum@.replies.subrange(0, i + 1).drop_last() =~= forum@.replies.subrange(
            0,
            i as int,
        ));
        if forum.reply_at(i).thread_id == thread_id {
            count += 1;
        }
        i += 1;
    }
    assert(forum@.replies.subrange(0, n as int) =~= forum@.replies);
    count
}

/// Recounts every board's threads and every thread's replies from the rows
/// and compares them with the stored counters.
pub fn counters_consistent(forum: &Forum) -> (r: bool)
    ensures
        r == counters_match(forum@),
{
    let nb = forum.num_boards();
    let mut i: usize = 0;
    while i < nb
        invariant
            nb == forum@.boards.len(),
            i <= nb,
            forall|k: int|
                0 <= k < i ==> (#[trigger] forum@.boards[k]).num_threads == threads_on_board(
                    forum@.threads,
                    forum@.boards[k].id,
                ),
        decreases nb - i,
    {
        let b = forum.board_at(i);
        let c = recount_threads(forum, b.id);
        if b.num_threads < 0 || b.num_threads as usize != c {
            return false;
        }
        i += 1;
    }
    let nt = forum.num_threads();
    let mut j: usize = 0;
    while j < nt
        invariant
            nt == forum@.threads.len(),
            j <= nt,
            forall|k: int|
                0 <= k < j ==> (#[trigger] forum@.threads[k]).num_replies == replies_in_thread(
                    forum@.replies,
                    forum@.threads[k].id,
                ),
        decreases nt - j,
    {
        let t = forum.thread_at(j);
        let c = recount_replies(forum, t.id);
        if t.num_replies < 0 || t.num_replies as usize != c {
            return false;
        }
        j += 1;
    }
    true
}

} // verus!
