//! Storage and consistency engine of a threaded discussion board.
//!
//! Boards hold threads, threads hold replies, and a reply may answer an
//! earlier reply of its thread. The tables live in one arena (`forum`), whose
//! well-formedness includes the denormalized counters: a board's
//! `num_threads` and a thread's `num_replies` always equal the rows they count.
//! Thread and reply creation keep those counters in step, all or nothing;
//! moderation changes a reply's status only. The read side (`threads`,
//! `replies`, `boards`, `search`) builds ordered, paged, joined views.
pub mod forum;
pub mod text;
pub mod moderation;
pub mod clock;
pub mod threads;
pub mod replies;
pub mod search;
pub mod boards;
pub mod counters;
