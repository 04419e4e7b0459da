use vstd::prelude::*;

verus! {

/// Status code of a reply whose text is shown to everyone.
pub const REPLY_LIVE: i32 = 1;

/// Status code of a reply suppressed by a moderator.
pub const REPLY_HIDDEN: i32 = 2;

/// Status code of a reply removed by its poster (or a moderator).
pub const REPLY_DELETED: i32 = 3;

/// Failures of the board engine.
#[derive(Debug, Clone, Copy, PartialEq, Eq, Structural)]
pub enum ForumError {
    /// A referenced board, thread, reply or user does not exist.
    NotFound,
    /// The caller lacks the ownership or moderator role the action needs.
    Unauthorized,
    /// The request itself is malformed (an unknown moderation action).
    BadRequest,
    /// Stored rows contradict each other (a parent id without its parent row).
    IntegrityFault,
}

#[derive(Debug)]
pub struct Board {
    pub id: i32,
    pub title: String,
    pub description: String,
    pub num_threads: i32,
}

#[derive(Debug)]
pub struct Thread {
    pub id: i32,
    pub title: String,
    pub description: String,
    pub board_id: i32,
    pub poster: i32,
    /// Microseconds since the Unix epoch.
    pub last_active: i64,
    pub num_replies: i32,
}

#[derive(Debug)]
pub struct Reply {
    pub id: i32,
    pub body: String,
    pub thread_id: i32,
    pub poster: i32,
    pub reply_to: Option<i32>,
    pub reply_status: i32,
    /// Microseconds since the Unix epoch.
    pub updated_at: i64,
}

#[derive(Debug)]
pub struct User {
    pub id: i32,
    pub pid: String,
    pub email: String,
    pub name: String,
    pub is_moderator: bool,
    pub is_banned: bool,
}

impl Board {
    pub fn duplicate(&self) -> (r: Board)
        ensures
            r == *self,
    {
        Board {
            id: self.id,
            title: self.title.clone(),
            description: self.description.clone(),
            num_threads: self.num_threads,
        }
    }
}

impl Thread {
    pub fn duplicate(&self) -> (r: Thread)
        ensures
            r == *self,
    {
        Thread {
            id: self.id,
            title: self.title.clone(),
            description: self.description.clone(),
            board_id: self.board_id,
            poster: self.poster,
            last_active: self.last_active,
            num_replies: self.num_replies,
        }
    }
}

impl Reply {
    pub fn duplicate(&self) -> (r: Reply)
        ensures
            r == *self,
    {
        Reply {
            id: self.id,
            body: self.body.clone(),
            thread_id: self.thread_id,
            poster: self.poster,
            reply_to: self.reply_to,
            reply_status: self.reply_status,
            updated_at: self.updated_at,
        }
    }
}

/// Number of threads in `ts` that belong to board `board_id`.
pub open spec fn threads_on_board(ts: Seq<Thread>, board_id: i32) -> nat
    decreases ts.len(),
{
    if ts.len() == 0 {
        0
    } else {
        threads_on_board(ts.drop_last(), board_id) + if ts.last().board_id == board_id {
            1nat
        } else {
            0nat
        }
    }
}

/// Number of replies in `rs` that belong to thread `thread_id`, whatever their status.
pub open spec fn replies_in_thread(rs: Seq<Reply>, thread_id: i32) -> nat
    decreases rs.len(),
{
    if rs.len() == 0 {
        0
    } else {
        replies_in_thread(rs.drop_last(), thread_id) + if rs.last().thread_id == thread_id {
            1nat
        } else {
            0nat
        }
    }
}

/// The four tables of the board, each kept in id order.
pub struct ForumView {
    pub boards: Seq<Board>,
    pub threads: Seq<Thread>,
    pub replies: Seq<Reply>,
    pub users: Seq<User>,
}

/// Whether `id` names a row of a table of `len` rows stored in id order.
pub open spec fn id_in(id: i32, len: nat) -> bool {
    1 <= id <= len
}

impl ForumView {
    pub open spec fn has_board(self, id: i32) -> bool {
        id_in(id, self.boards.len())
    }

    pub open spec fn has_thread(self, id: i32) -> bool {
        id_in(id, self.threads.len())
    }

    pub open spec fn has_reply(self, id: i32) -> bool {
        id_in(id, self.replies.len())
    }

    pub open spec fn has_user(self, id: i32) -> bool {
        id_in(id, self.users.len())
    }

    pub open spec fn board(self, id: i32) -> Board {
        self.boards[id - 1]
    }

    pub open spec fn thread(self, id: i32) -> Thread {
        self.threads[id - 1]
    }

    pub open spec fn reply(self, id: i32) -> Reply {
        self.replies[id - 1]
    }

    pub open spec fn user(self, id: i32) -> User {
        self.users[id - 1]
    }

    pub open spec fn board_wf(self, i: int) -> bool {
        let b = self.boards[i];
        &&& b.id == i + 1
        &&& b.num_threads == threads_on_board(self.threads, b.id)
    }

    pub open spec fn thread_wf(self, i: int) -> bool {
        let t = self.threads[i];
        &&& t.id == i + 1
        &&& self.has_board(t.board_id)
        &&& self.has_user(t.poster)
        &&& t.num_replies == replies_in_thread(self.replies, t.id)
    }

    /// A reply belongs to an existing thread, was posted by an existing user, has
    /// one of the three statuses, and its parent (if any) is an earlier reply of
    /// the same thread.
    pub open spec fn reply_wf(self, i: int) -> bool {
        let r = self.replies[i];
        &&& r.id == i + 1
        &&& self.has_thread(r.thread_id)
        &&& self.has_user(r.poster)
        &&& (r.reply_status == REPLY_LIVE || r.reply_status == REPLY_HIDDEN || r.reply_status
            == REPLY_DELETED)
        &&& (r.reply_to matches Some(p) ==> 1 <= p <= i && self.replies[p - 1].thread_id
            == r.thread_id)
    }

    pub open spec fn wf(self) -> bool {
        &&& self.boards.len() <= i32::MAX
        &&& self.threads.len() <= i32::MAX
        &&& self.replies.len() <= i32::MAX
        &&& self.users.len() <= i32::MAX
        &&& forall|i: int| 0 <= i < self.boards.len() ==> #[trigger] self.board_wf(i)
        &&& forall|i: int| 0 <= i < self.threads.len() ==> #[trigger] self.thread_wf(i)
        &&& forall|i: int| 0 <= i < self.replies.len() ==> #[trigger] self.reply_wf(i)
        &&& forall|i: int| 0 <= i < self.users.len() ==> #[trigger] self.users[i].id == i + 1
    }
}

proof fn lemma_threads_on_board_bound(ts: Seq<Thread>, board_id: i32)
    ensures
        threads_on_board(ts, board_id) <= ts.len(),
    decreases ts.len(),
{
    if ts.len() > 0 {
        lemma_threads_on_board_bound(ts.drop_last(), board_id);
    }
}

proof fn lemma_replies_in_thread_bound(rs: Seq<Reply>, thread_id: i32)
    ensures
        replies_in_thread(rs, thread_id) <= rs.len(),
    decreases rs.len(),
{
    if rs.len() > 0 {
        lemma_replies_in_thread_bound(rs.drop_last(), thread_id);
    }
}

proof fn lemma_replies_in_thread_none(rs: Seq<Reply>, thread_id: i32)
    requires
        forall|i: int| 0 <= i < rs.len() ==> #[trigger] rs[i].thread_id != thread_id,
    ensures
        replies_in_thread(rs, thread_id) == 0,
    decreases rs.len(),
{
    if rs.len() > 0 {
        lemma_replies_in_thread_none(rs.drop_last(), thread_id);
    }
}

proof fn lemma_threads_on_board_push(ts: Seq<Thread>, t: Thread, board_id: i32)
    ensures
        threads_on_board(ts.push(t), board_id) == threads_on_board(ts, board_id) + if t.board_id
            == board_id {
            1nat
        } else {
            0nat
        },
{
    assert(ts.push(t).drop_last() =~= ts);
}

proof fn lemma_replies_in_thread_push(rs: Seq<Reply>, r: Reply, thread_id: i32)
    ensures
        replies_in_thread(rs.push(r), thread_id) == replies_in_thread(rs, thread_id) + if r.thread_id
            == thread_id {
            1nat
        } else {
            0nat
        },
{
    assert(rs.push(r).drop_last() =~= rs);
}

/// Replacing a reply by one of the same thread keeps every thread's count.
proof fn lemma_replies_in_thread_update(rs: Seq<Reply>, i: int, r: Reply, thread_id: i32)
    requires
        0 <= i < rs.len(),
        rs[i].thread_id == r.thread_id,
    ensures
        replies_in_thread(rs.update(i, r), thread_id) == replies_in_thread(rs, thread_id),
    decreases rs.len(),
{
    let u = rs.update(i, r);
    if i == rs.len() - 1 {
        assert(u.drop_last() =~= rs.drop_last());
    } else {
        assert(u.drop_last() =~= rs.drop_last().update(i, r));
        lemma_replies_in_thread_update(rs.drop_last(), i, r, thread_id);
    }
}

/// Replacing a thread by one of the same board keeps every board's count.
proof fn lemma_threads_on_board_update(ts: Seq<Thread>, i: int, t: Thread, board_id: i32)
    requires
        0 <= i < ts.len(),
        ts[i].board_id == t.board_id,
    ensures
        threads_on_board(ts.update(i, t), board_id) == threads_on_board(ts, board_id),
    decreases ts.len(),
{
    let u = ts.update(i, t);
    if i == ts.len() - 1 {
        assert(u.drop_last() =~= ts.drop_last());
    } else {
        assert(u.drop_last() =~= ts.drop_last().update(i, t));
        lemma_threads_on_board_update(ts.drop_last(), i, t, board_id);
    }
}

/// The board's storage: boards, threads, replies and users, each an arena whose
/// row with id `n` stands at position `n - 1`.
pub struct Forum {
    boards: Vec<Board>,
    threads: Vec<Thread>,
    replies: Vec<Reply>,
    users: Vec<User>,
}

impl View for Forum {
    type V = ForumView;

    closed spec fn view(&self) -> ForumView {
        ForumView {
            boards: self.boards@,
            threads: self.threads@,
            replies: self.replies@,
            users: self.users@,
        }
    }
}

impl Forum {
    pub fn new() -> (f: Forum)
        ensures
            f@.wf(),
            f@.boards.len() == 0,
            f@.threads.len() == 0,
            f@.replies.len() == 0,
            f@.users.len() == 0,
    {
        Forum { boards: Vec::new(), threads: Vec::new(), replies: Vec::new(), users: Vec::new() }
    }

    pub fn num_boards(&self) -> (n: usize)
        ensures
            n == self@.boards.len(),
    {
        self.boards.len()
    }

    pub fn num_threads(&self) -> (n: usize)
        ensures
            n == self@.threads.len(),
    {
        self.threads.len()
    }

    pub fn num_replies(&self) -> (n: usize)
        ensures
            n == self@.replies.len(),
    {
        self.replies.len()
    }

    pub fn num_users(&self) -> (n: usize)
        ensures
            n == self@.users.len(),
    {
        self.users.len()
    }

    pub fn board_at(&self, i: usize) -> (b: &Board)
        requires
            i < self@.boards.len(),
        ensures
            *b == self@.boards[i as int],
    {
        &self.boards[i]
    }

    pub fn thread_at(&self, i: usize) -> (t: &Thread)
        requires
            i < self@.threads.len(),
        ensures
            *t == self@.threads[i as int],
    {
        &self.threads[i]
    }

    pub fn reply_at(&self, i: usize) -> (r: &Reply)
        requires
            i < self@.replies.len(),
        ensures
            *r == self@.replies[i as int],
    {
        &self.replies[i]
    }

    pub fn user_at(&self, i: usize) -> (u: &User)
        requires
            i < self@.users.len(),
        ensures
            *u == self@.users[i as int],
    {
        &self.users[i]
    }

    /// Adds a board with no threads; boards are created by administrators.
    pub fn add_board(&mut self, title: String, description: String) -> (id: i32)
        requires
            old(self)@.wf(),
            old(self)@.boards.len() < i32::MAX,
        ensures
            final(self)@.wf(),
            id == old(self)@.boards.len() + 1,
            final(self)@.boards == old(self)@.boards.push(
                Board { id, title, description, num_threads: 0 },
            ),
            final(self)@.threads == old(self)@.threads,
            final(self)@.replies == old(self)@.replies,
            final(self)@.users == old(self)@.users,
    {
        let id = (self.boards.len() + 1) as i32;
        proof {
            assert forall|i: int| 0 <= i < self.threads@.len() implies #[trigger] self.threads@[i].board_id
                != id by {
                assert(self@.thread_wf(i));
            }
            lemma_threads_on_board_none(self.threads@, id);
        }
        self.boards.push(Board { id, title, description, num_threads: 0 });
        proof {
            let v = self@;
            assert forall|i: int| 0 <= i < v.boards.len() implies #[trigger] v.board_wf(i) by {
                if i < v.boards.len() - 1 {
                    assert(old(self)@.board_wf(i));
                }
            }
            assert forall|i: int| 0 <= i < v.threads.len() implies #[trigger] v.thread_wf(i) by {
                assert(old(self)@.thread_wf(i));
            }
            assert forall|i: int| 0 <= i < v.replies.len() implies #[trigger] v.reply_wf(i) by {
                assert(old(self)@.reply_wf(i));
            }
        }
        id
    }

    /// Adds a user; accounts are created by the authentication layer.
    pub fn add_user(
        &mut self,
        pid: String,
        email: String,
        name: String,
        is_moderator: bool,
        is_banned: bool,
    ) -> (id: i32)
        requires
            old(self)@.wf(),
            old(self)@.users.len() < i32::MAX,
        ensures
            final(self)@.wf(),
            id == old(self)@.users.len() + 1,
            final(self)@.users == old(self)@.users.push(
                User { id, pid, email, name, is_moderator, is_banned },
            ),
            final(self)@.boards == old(self)@.boards,
            final(self)@.threads == old(self)@.threads,
            final(self)@.replies == old(self)@.replies,
    {
        let id = (self.users.len() + 1) as i32;
        self.users.push(User { id, pid, email, name, is_moderator, is_banned });
        proof {
            let v = self@;
            assert forall|i: int| 0 <= i < v.boards.len() implies #[trigger] v.board_wf(i) by {
                assert(old(self)@.board_wf(i));
            }
            assert forall|i: int| 0 <= i < v.threads.len() implies #[trigger] v.thread_wf(i) by {
                assert(old(self)@.thread_wf(i));
            }
            assert forall|i: int| 0 <= i < v.replies.len() implies #[trigger] v.reply_wf(i) by {
                assert(old(self)@.reply_wf(i));
            }
        }
        id
    }
}

impl ForumView {
    /// `post` is `pre` after thread `t` was created on board `board_id` by
    /// `poster`, together with its seed reply holding `body`, both stamped `now`.
    pub open spec fn thread_creation(
        pre: ForumView,
        post: ForumView,
        t: Thread,
        title: String,
        board_id: i32,
        poster: i32,
        body: String,
        now: i64,
    ) -> bool {
        let b = pre.board(board_id);
        &&& t.id == pre.threads.len() + 1
        &&& t.title == title
        &&& t.description@ == Seq::<char>::empty()
        &&& t.board_id == board_id
        &&& t.poster == poster
        &&& t.last_active == now
        &&& t.num_replies == 1
        &&& post.threads == pre.threads.push(t)
        &&& post.replies == pre.replies.push(
            Reply {
                id: (pre.replies.len() + 1) as i32,
                body,
                thread_id: t.id,
                poster,
                reply_to: None,
                reply_status: REPLY_LIVE,
                updated_at: now,
            },
        )
        &&& post.boards == pre.boards.update(
            board_id - 1,
            Board {
                id: b.id,
                title: b.title,
                description: b.description,
                num_threads: (b.num_threads + 1) as i32,
            },
        )
        &&& post.users == pre.users
    }

    /// Whether a reply of `poster` to thread `thread_id`, answering `reply_to`,
    /// may be stored: the thread, the user and the parent exist, and the parent
    /// belongs to the same thread.
    pub open spec fn reply_admissible(
        self,
        thread_id: i32,
        poster: i32,
        reply_to: Option<i32>,
    ) -> bool {
        &&& self.has_thread(thread_id)
        &&& self.has_user(poster)
        &&& (reply_to matches Some(p) ==> self.has_reply(p) && self.reply(p).thread_id
            == thread_id)
    }

    /// The error a refused reply gets: a missing thread, user or parent is
    /// `NotFound`; a parent in another thread is `BadRequest`.
    pub open spec fn reply_refusal(
        self,
        thread_id: i32,
        poster: i32,
        reply_to: Option<i32>,
    ) -> ForumError {
        if !self.has_thread(thread_id) || !self.has_user(poster) {
            ForumError::NotFound
        } else if reply_to matches Some(p) && !self.has_reply(p) {
            ForumError::NotFound
        } else {
            ForumError::BadRequest
        }
    }

    /// `post` is `pre` after reply `r` was stored and its thread's counter bumped.
    pub open spec fn reply_creation(
        pre: ForumView,
        post: ForumView,
        r: Reply,
        body: String,
        thread_id: i32,
        poster: i32,
        reply_to: Option<i32>,
        now: i64,
    ) -> bool {
        let t = pre.thread(thread_id);
        &&& r == Reply {
            id: (pre.replies.len() + 1) as i32,
            body,
            thread_id,
            poster,
            reply_to,
            reply_status: REPLY_LIVE,
            updated_at: now,
        }
        &&& post.replies == pre.replies.push(r)
        &&& post.threads == pre.threads.update(
            thread_id - 1,
            Thread {
                id: t.id,
                title: t.title,
                description: t.description,
                board_id: t.board_id,
                poster: t.poster,
                last_active: t.last_active,
                num_replies: (t.num_replies + 1) as i32,
            },
        )
        &&& post.boards == pre.boards
        &&& post.users == pre.users
    }
}

impl Forum {
    /// Creates a thread and its seed reply and counts the thread on its board,
    /// all or nothing: when the board or the poster is missing nothing changes.
    pub fn create_thread_at(
        &mut self,
        title: String,
        board_id: i32,
        poster_id: i32,
        initial_reply_text: String,
        now: i64,
    ) -> (r: Result<Thread, ForumError>)
        requires
            old(self)@.wf(),
            old(self)@.threads.len() < i32::MAX,
            old(self)@.replies.len() < i32::MAX,
        ensures
            final(self)@.wf(),
            r is Ok <==> old(self)@.has_board(board_id) && old(self)@.has_user(poster_id),
            r is Err ==> r == Err::<Thread, ForumError>(ForumError::NotFound) && final(self)@
                == old(self)@,
            r matches Ok(t) ==> ForumView::thread_creation(
                old(self)@,
                final(self)@,
                t,
                title,
                board_id,
                poster_id,
                initial_reply_text,
                now,
            ),
            r matches Ok(t) ==> t.num_replies == 1 && final(self)@.board(board_id).num_threads
                == old(self)@.board(board_id).num_threads + 1,
    {
        if board_id < 1 || board_id as usize > self.boards.len() || poster_id < 1 || poster_id
            as usize > self.users.len() {
            return Err(ForumError::NotFound);
        }
        let ghost pre = self@;
        let tid = (self.threads.len() + 1) as i32;
        let rid = (self.replies.len() + 1) as i32;
        let thread = Thread {
            id: tid,
            title,
            description: String::new(),
            board_id,
            poster: poster_id,
            last_active: now,
            num_replies: 1,
        };
        let created = thread.duplicate();
        let seed = Reply {
            id: rid,
            body: initial_reply_text,
            thread_id: tid,
            poster: poster_id,
            reply_to: None,
            reply_status: REPLY_LIVE,
            updated_at: now,
        };
        let bi = (board_id - 1) as usize;
        proof {
            assert(pre.board_wf(bi as int));
            lemma_threads_on_board_bound(pre.threads, board_id);
            assert forall|i: int| 0 <= i < pre.replies.len() implies #[trigger] pre.replies[i].thread_id
                != tid by {
                assert(pre.reply_wf(i));
            }
            lemma_replies_in_thread_none(pre.replies, tid);
        }
        self.threads.push(thread);
        self.replies.push(seed);
        let b = Board {
            id: self.boards[bi].id,
            title: self.boards[bi].title.clone(),
            description: self.boards[bi].description.clone(),
            num_threads: self.boards[bi].num_threads + 1,
        };
        self.boards.set(bi, b);
        proof {
            let v = self@;
            assert forall|i: int| 0 <= i < v.boards.len() implies #[trigger] v.board_wf(i) by {
                assert(pre.board_wf(i));
                lemma_threads_on_board_push(pre.threads, created, v.boards[i].id);
            }
            assert forall|i: int| 0 <= i < v.threads.len() implies #[trigger] v.thread_wf(i) by {
                lemma_replies_in_thread_push(pre.replies, seed, v.threads[i].id);
                if i < pre.threads.len() {
                    assert(pre.thread_wf(i));
                }
            }
            assert forall|i: int| 0 <= i < v.replies.len() implies #[trigger] v.reply_wf(i) by {
                if i < pre.replies.len() {
                    assert(pre.reply_wf(i));
                }
            }
            assert forall|i: int| 0 <= i < v.users.len() implies #[trigger] v.users[i].id == i
                + 1 by {
            }
        }
        Ok(created)
    }

    /// Stores a live reply and bumps its thread's counter in the same step.
    pub fn create_reply_at(
        &mut self,
        body: String,
        thread_id: i32,
        poster: i32,
        reply_to: Option<i32>,
        now: i64,
    ) -> (r: Result<Reply, ForumError>)
        requires
            old(self)@.wf(),
            old(self)@.replies.len() < i32::MAX,
        ensures
            final(self)@.wf(),
            r is Ok <==> old(self)@.reply_admissible(thread_id, poster, reply_to),
            r is Err ==> r == Err::<Reply, ForumError>(
                old(self)@.reply_refusal(thread_id, poster, reply_to),
            ) && final(self)@ == old(self)@,
            r matches Ok(reply) ==> ForumView::reply_creation(
                old(self)@,
                final(self)@,
                reply,
                body,
                thread_id,
                poster,
                reply_to,
                now,
            ),
            r is Ok ==> final(self)@.thread(thread_id).num_replies == old(self)@.thread(
                thread_id,
            ).num_replies + 1,
    {
        if thread_id < 1 || thread_id as usize > self.threads.len() || poster < 1 || poster as usize
            > self.users.len() {
            return Err(ForumError::NotFound);
        }
        if let Some(p) = reply_to {
            if p < 1 || p as usize > self.replies.len() {
                return Err(ForumError::NotFound);
            }
            if self.replies[(p - 1) as usize].thread_id != thread_id {
                return Err(ForumError::BadRequest);
            }
        }
        let ghost pre = self@;
        let ti = (thread_id - 1) as usize;
        let reply = Reply {
            id: (self.replies.len() + 1) as i32,
            body,
            thread_id,
            poster,
            reply_to,
            reply_status: REPLY_LIVE,
            updated_at: now,
        };
        let created = reply.duplicate();
        proof {
            assert(pre.thread_wf(ti as int));
            lemma_replies_in_thread_bound(pre.replies, thread_id);
        }
        self.replies.push(reply);
        let t = Thread {
            id: self.threads[ti].id,
            title: self.threads[ti].title.clone(),
            description: self.threads[ti].description.clone(),
            board_id: self.threads[ti].board_id,
            poster: self.threads[ti].poster,
            last_active: self.threads[ti].last_active,
            num_replies: self.threads[ti].num_replies + 1,
        };
        self.threads.set(ti, t);
        proof {
            let v = self@;
            assert forall|i: int| 0 <= i < v.boards.len() implies #[trigger] v.board_wf(i) by {
                assert(pre.board_wf(i));
                lemma_threads_on_board_update(pre.threads, ti as int, t, v.boards[i].id);
            }
            assert forall|i: int| 0 <= i < v.threads.len() implies #[trigger] v.thread_wf(i) by {
                assert(pre.thread_wf(i));
                lemma_replies_in_thread_push(pre.replies, created, v.threads[i].id);
            }
            assert forall|i: int| 0 <= i < v.replies.len() implies #[trigger] v.reply_wf(i) by {
                if i < pre.replies.len() {
                    assert(pre.reply_wf(i));
                }
            }
            assert forall|i: int| 0 <= i < v.users.len() implies #[trigger] v.users[i].id == i
                + 1 by {
            }
        }
        Ok(created)
    }
}

/// `r` with a new status, stamped `now`.
pub open spec fn with_status(r: Reply, status: i32, now: i64) -> Reply {
    Reply {
        id: r.id,
        body: r.body,
        thread_id: r.thread_id,
        poster: r.poster,
        reply_to: r.reply_to,
        reply_status: status,
        updated_at: now,
    }
}

/// `r` with a new body, stamped `now`.
pub open spec fn with_body(r: Reply, body: String, now: i64) -> Reply {
    Reply {
        id: r.id,
        body,
        thread_id: r.thread_id,
        poster: r.poster,
        reply_to: r.reply_to,
        reply_status: r.reply_status,
        updated_at: now,
    }
}

/// `u` with a new display name.
pub open spec fn with_name(u: User, name: String) -> User {
    User {
        id: u.id,
        pid: u.pid,
        email: u.email,
        name,
        is_moderator: u.is_moderator,
        is_banned: u.is_banned,
    }
}

impl Forum {
    pub fn board_by_id(&self, id: i32) -> (r: Option<&Board>)
        ensures
            r is Some <==> self@.has_board(id),
            r matches Some(b) ==> *b == self@.board(id),
    {
        if id < 1 || id as usize > self.boards.len() {
            None
        } else {
            Some(&self.boards[(id - 1) as usize])
        }
    }

    pub fn thread_by_id(&self, id: i32) -> (r: Option<&Thread>)
        ensures
            r is Some <==> self@.has_thread(id),
            r matches Some(t) ==> *t == self@.thread(id),
    {
        if id < 1 || id as usize > self.threads.len() {
            None
        } else {
            Some(&self.threads[(id - 1) as usize])
        }
    }

    pub fn reply_by_id(&self, id: i32) -> (r: Option<&Reply>)
        ensures
            r is Some <==> self@.has_reply(id),
            r matches Some(x) ==> *x == self@.reply(id),
    {
        if id < 1 || id as usize > self.replies.len() {
            None
        } else {
            Some(&self.replies[(id - 1) as usize])
        }
    }

    pub fn user_by_id(&self, id: i32) -> (r: Option<&User>)
        ensures
            r is Some <==> self@.has_user(id),
            r matches Some(u) ==> *u == self@.user(id),
    {
        if id < 1 || id as usize > self.users.len() {
            None
        } else {
            Some(&self.users[(id - 1) as usize])
        }
    }

    /// Changes a reply's status; its body, poster and place stay.
    pub fn set_reply_status(&mut self, reply_id: i32, status: i32, now: i64)
        requires
            old(self)@.wf(),
            old(self)@.has_reply(reply_id),
            status == REPLY_LIVE || status == REPLY_HIDDEN || status == REPLY_DELETED,
        ensures
            final(self)@.wf(),
            final(self)@.replies == old(self)@.replies.update(
                reply_id - 1,
                with_status(old(self)@.reply(reply_id), status, now),
            ),
            final(self)@.boards == old(self)@.boards,
            final(self)@.threads == old(self)@.threads,
            final(self)@.users == old(self)@.users,
    {
        let ghost pre = self@;
        let i = (reply_id - 1) as usize;
        self.replies[i].reply_status = status;
        self.replies[i].updated_at = now;
        proof {
            let v = self@;
            assert(v.replies =~= pre.replies.update(i as int, with_status(pre.replies[i as int], status, now)));
            assert forall|k: int| 0 <= k < v.boards.len() implies #[trigger] v.board_wf(k) by {
                assert(pre.board_wf(k));
            }
            assert forall|k: int| 0 <= k < v.threads.len() implies #[trigger] v.thread_wf(k) by {
                assert(pre.thread_wf(k));
                lemma_replies_in_thread_update(pre.replies, i as int, v.replies[i as int], v.threads[k].id);
            }
            assert forall|k: int| 0 <= k < v.replies.len() implies #[trigger] v.reply_wf(k) by {
                assert(pre.reply_wf(k));
            }
        }
    }

    /// Replaces a reply's body; its status, poster and place stay.
    pub fn set_reply_body(&mut self, reply_id: i32, body: String, now: i64)
        requires
            old(self)@.wf(),
            old(self)@.has_reply(reply_id),
        ensures
            final(self)@.wf(),
            final(self)@.replies == old(self)@.replies.update(
                reply_id - 1,
                with_body(old(self)@.reply(reply_id), body, now),
            ),
            final(self)@.boards == old(self)@.boards,
            final(self)@.threads == old(self)@.threads,
            final(self)@.users == old(self)@.users,
    {
        let ghost pre = self@;
        let i = (reply_id - 1) as usize;
        self.replies[i].body = body;
        self.replies[i].updated_at = now;
        proof {
            let v = self@;
            assert(v.replies =~= pre.replies.update(i as int, with_body(pre.replies[i as int], body, now)));
            assert forall|k: int| 0 <= k < v.boards.len() implies #[trigger] v.board_wf(k) by {
                assert(pre.board_wf(k));
            }
            assert forall|k: int| 0 <= k < v.threads.len() implies #[trigger] v.thread_wf(k) by {
                assert(pre.thread_wf(k));
                lemma_replies_in_thread_update(pre.replies, i as int, v.replies[i as int], v.threads[k].id);
            }
            assert forall|k: int| 0 <= k < v.replies.len() implies #[trigger] v.reply_wf(k) by {
                assert(pre.reply_wf(k));
            }
        }
    }

    /// Replaces a user's display name.
    pub fn set_user_name(&mut self, user_id: i32, name: String)
        requires
            old(self)@.wf(),
            old(self)@.has_user(user_id),
        ensures
            final(self)@.wf(),
            final(self)@.users == old(self)@.users.update(
                user_id - 1,
                with_name(old(self)@.user(user_id), name),
            ),
            final(self)@.boards == old(self)@.boards,
            final(self)@.threads == old(self)@.threads,
            final(self)@.replies == old(self)@.replies,
    {
        let ghost pre = self@;
        let i = (user_id - 1) as usize;
        self.users[i].name = name;
        proof {
            let v = self@;
            assert(v.users =~= pre.users.update(i as int, with_name(pre.users[i as int], name)));
            assert forall|k: int| 0 <= k < v.boards.len() implies #[trigger] v.board_wf(k) by {
                assert(pre.board_wf(k));
            }
            assert forall|k: int| 0 <= k < v.threads.len() implies #[trigger] v.thread_wf(k) by {
                assert(pre.thread_wf(k));
            }
            assert forall|k: int| 0 <= k < v.replies.len() implies #[trigger] v.reply_wf(k) by {
                assert(pre.reply_wf(k));
            }
        }
    }
}

proof fn lemma_threads_on_board_none(ts: Seq<Thread>, board_id: i32)
    requires
        forall|i: int| 0 <= i < ts.len() ==> #[trigger] ts[i].board_id != board_id,
    ensures
        threads_on_board(ts, board_id) == 0,
    decreases ts.len(),
{
    if ts.len() > 0 {
        lemma_threads_on_board_none(ts.drop_last(), board_id);
    }
}

} // verus!
