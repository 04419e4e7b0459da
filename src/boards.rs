use vstd::prelude::*;
use crate::forum::{Board, Forum, ForumError, threads_on_board, replies_in_thread};
use crate::replies::{self, ReplyResponse, reply_row, thread_replies};
use crate::threads::{self, ThreadWithPosterName, board_listing, page_of, thread_row};

verus! {

/// One page of a board's threads and the number of threads on the board.
#[derive(Debug)]
pub struct ThreadsResponse {
    pub threads: Vec<ThreadWithPosterName>,
    pub total_count: u64,
}

/// One page of a thread's replies, the thread's reply counter, and the
/// titles of the thread and of the board.
#[derive(Debug)]
pub struct RepliesResponse {
    pub replies: Vec<ReplyResponse>,
    pub total_count: u64,
    pub thread_title: String,
    pub board_name: String,
}

/// The page size a request gets: 10 when it names none, else its own size
/// brought into `1 ..= 100`.
pub open spec fn clamp_page_size(page_size: Option<u64>) -> u64 {
    let s = match page_size {
        Some(s) => s,
        None => 10,
    };
    if s < 1 {
        1
    } else if s > 100 {
        100
    } else {
        s
    }
}

/// The page number a request gets: 0 when it names none.
pub open spec fn page_number_of(page_number: Option<u64>) -> u64 {
    match page_number {
        Some(p) => p,
        None => 0,
    }
}

/// Page size and page number of a listing request; an out-of-range size is
/// clamped, never refused.
pub fn page_params(page_size: Option<u64>, page_number: Option<u64>) -> (r: (u64, u64))
    ensures
        r.0 == clamp_page_size(page_size),
        r.1 == page_number_of(page_number),
        1 <= r.0 <= 100,
{
    let size = match page_size {
        Some(s) => s,
        None => 10,
    };
    let size = if size < 1 {
        1
    } else if size > 100 {
        100
    } else {
        size
    };
    let number = match page_number {
        Some(p) => p,
        None => 0,
    };
    (size, number)
}

/// All boards, in id order.
pub fn find_all(forum: &Forum) -> (r: Vec<Board>)
    ensures
        r@ == forum@.boards,
{
    let n = forum.num_boards();
    let mut out: Vec<Board> = Vec::new();
    let mut i: usize = 0;
    while i < n
        invariant
            n == forum@.boards.len(),
            i <= n,
            out@ == forum@.boards.subrange(0, i as int),
        decreases n - i,
    {
        out.push(forum.board_at(i).duplicate());
        i += 1;
        assert(out@ =~= forum@.boards.subrange(0, i as int));
    }
    assert(out@ =~= forum@.boards);
    out
}

/// A page of board `board_id`'s threads, with the board's thread count
/// counted afresh (not taken from the page).
pub fn get_threads(
    forum: &Forum,
    board_id: i32,
    page_size: Option<u64>,
    page_number: Option<u64>,
) -> (r: ThreadsResponse)
    requires
        forum@.wf(),
    ensures
        ({
            let page = page_of(
                board_listing(forum@, board_id),
                clamp_page_size(page_size) as nat,
                page_number_of(page_number) as nat,
            );
            &&& r.threads@.len() == page.len()
            &&& forall|i: int|
                0 <= i < r.threads@.len() ==> #[trigger] r.threads@[i] == thread_row(forum@, page[i])
        }),
        r.total_count == threads_on_board(forum@.threads, board_id),
{
    let (size, number) = page_params(page_size, page_number);
    let threads = threads::find_paginated(forum, board_id, size, number);
    let total_count = threads::count_by_board(forum, board_id);
    ThreadsResponse { threads, total_count }
}

/// A page of thread `thread_id`'s replies with the thread's reply counter
/// (which counts hidden and deleted replies too) and the titles of the thread
/// and of board `board_id`. A missing thread or board is `NotFound`.
pub fn get_replies(
    forum: &Forum,
    board_id: i32,
    thread_id: i32,
    page_size: Option<u64>,
    page_number: Option<u64>,
) -> (r: Result<RepliesResponse, ForumError>)
    requires
        forum@.wf(),
    ensures
        r is Ok <==> forum@.has_thread(thread_id) && forum@.has_board(board_id),
        r is Err ==> r == Err::<RepliesResponse, ForumError>(ForumError::NotFound),
        r matches Ok(resp) ==> {
            let page = page_of(
                thread_replies(forum@, thread_id),
                clamp_page_size(page_size) as nat,
                page_number_of(page_number) as nat,
            );
            &&& resp.replies@.len() == page.len()
            &&& forall|i: int|
                0 <= i < resp.replies@.len() ==> #[trigger] resp.replies@[i] == reply_row(
                    forum@,
                    page[i],
                )
            &&& resp.total_count == forum@.thread(thread_id).num_replies
            &&& resp.total_count == replies_in_thread(forum@.replies, thread_id)
            &&& resp.thread_title == forum@.thread(thread_id).title
            &&& resp.board_name == forum@.board(board_id).title
        },
{
    let (size, number) = page_params(page_size, page_number);
    let rows = match replies::find_paginated(forum, thread_id, size, number) {
        Ok(rows) => rows,
        Err(e) => {
            return Err(e);
        },
    };
    let thread = match forum.thread_by_id(thread_id) {
        Some(t) => t,
        None => {
            return Err(ForumError::NotFound);
        },
    };
    let board = match forum.board_by_id(board_id) {
        Some(b) => b,
        None => {
            return Err(ForumError::NotFound);
        },
    };
    proof {
        assert(forum@.thread_wf(thread_id - 1));
    }
    Ok(
        RepliesResponse {
            replies: rows,
            total_count: thread.num_replies as u64,
            thread_title: thread.title.clone(),
            board_name: board.title.clone(),
        },
    )
}

} // verus!
