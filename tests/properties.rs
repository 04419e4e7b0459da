use kboard::boards::get_replies;
use kboard::counters::counters_consistent;
use kboard::forum::{Forum, ForumError, REPLY_DELETED, REPLY_HIDDEN, REPLY_LIVE};
use kboard::moderation::{delete_reply, moderation_outcome, update_reply, update_user};
use kboard::replies::{self, resolve_parent};
use kboard::search::{default_limit, search_replies, SearchQuery};
use kboard::text::{blank, same_text, text_contains};
use kboard::threads;

/// Users 1 and 2 are plain members, user 3 a moderator; board 1 is empty.
fn forum_with_users() -> Forum {
    let mut f = Forum::new();
    f.add_user("pid-1".to_string(), "a@example.com".to_string(), "alice".to_string(), false, false);
    f.add_user("pid-2".to_string(), "b@example.com".to_string(), "bob".to_string(), false, true);
    f.add_user("pid-3".to_string(), "m@example.com".to_string(), "mod".to_string(), true, false);
    f.add_board("Board".to_string(), "About things.".to_string());
    f
}

#[test]
fn scenario_thread_then_reply() {
    let mut f = forum_with_users();
    assert_eq!(f.board_by_id(1).unwrap().num_threads, 0);
    let t1 = f.create_thread_at("T1".to_string(), 1, 1, "hello".to_string(), 10).unwrap();
    assert_eq!(t1.num_replies, 1);
    assert_eq!(f.board_by_id(1).unwrap().num_threads, 1);
    let seed_id = 1;
    assert_eq!(f.reply_by_id(seed_id).unwrap().body, "hello");
    f.create_reply_at("world".to_string(), t1.id, 2, Some(seed_id), 11).unwrap();
    assert_eq!(f.thread_by_id(t1.id).unwrap().num_replies, 2);
    let rows = replies::find_paginated(&f, t1.id, 10, 0).unwrap();
    assert_eq!(rows.len(), 2);
    assert_eq!(rows[1].reply_to, Some((seed_id, "hello".to_string(), REPLY_LIVE)));
    assert_eq!(rows[1].poster_username, "bob");
    assert!(rows[1].poster_is_banned);
    assert!(counters_consistent(&f));
}

#[test]
fn scenario_hidden_parent_is_reported() {
    let mut f = forum_with_users();
    let t = f.create_thread_at("T".to_string(), 1, 1, "first".to_string(), 1).unwrap();
    let r = f.create_reply_at("rude".to_string(), t.id, 2, None, 2).unwrap();
    f.create_reply_at("answer".to_string(), t.id, 1, Some(r.id), 3).unwrap();
    assert_eq!(delete_reply(&mut f, 3, r.id, "hide", 4), Ok(()));
    let rows = replies::find_paginated(&f, t.id, 10, 0).unwrap();
    assert_eq!(rows.len(), 3);
    assert_eq!(rows[1].reply_status, REPLY_HIDDEN);
    assert_eq!(rows[1].body, "rude");
    assert_eq!(rows[1].updated_at, 4);
    assert_eq!(rows[2].reply_to, Some((r.id, "rude".to_string(), REPLY_HIDDEN)));
    // Reading twice changes nothing.
    let again = replies::find_paginated(&f, t.id, 10, 0).unwrap();
    assert_eq!(again[2].reply_to, rows[2].reply_to);
    assert_eq!(f.reply_by_id(r.id).unwrap().reply_status, REPLY_HIDDEN);
}

#[test]
fn reply_counter_ignores_status() {
    let mut f = forum_with_users();
    let t = f.create_thread_at("T".to_string(), 1, 1, "first".to_string(), 1).unwrap();
    let r = f.create_reply_at("second".to_string(), t.id, 2, None, 2).unwrap();
    assert_eq!(f.thread_by_id(t.id).unwrap().num_replies, 2);
    assert_eq!(delete_reply(&mut f, 2, r.id, "delete", 3), Ok(()));
    assert_eq!(f.thread_by_id(t.id).unwrap().num_replies, 2);
    f.create_reply_at("third".to_string(), t.id, 1, Some(r.id), 4).unwrap();
    assert_eq!(f.thread_by_id(t.id).unwrap().num_replies, 3);
    assert!(counters_consistent(&f));
}

#[test]
fn create_thread_missing_board_changes_nothing() {
    let mut f = forum_with_users();
    assert_eq!(
        f.create_thread_at("T".to_string(), 2, 1, "x".to_string(), 1).unwrap_err(),
        ForumError::NotFound
    );
    assert_eq!(
        f.create_thread_at("T".to_string(), 1, 9, "x".to_string(), 1).unwrap_err(),
        ForumError::NotFound
    );
    assert_eq!(f.num_threads(), 0);
    assert_eq!(f.num_replies(), 0);
    assert_eq!(f.board_by_id(1).unwrap().num_threads, 0);
}

#[test]
fn create_reply_refusals() {
    let mut f = forum_with_users();
    f.add_board("Other".to_string(), String::new());
    let a = f.create_thread_at("A".to_string(), 1, 1, "a".to_string(), 1).unwrap();
    let b = f.create_thread_at("B".to_string(), 2, 1, "b".to_string(), 2).unwrap();
    assert_eq!(f.create_reply_at("x".to_string(), 9, 1, None, 3).unwrap_err(), ForumError::NotFound);
    assert_eq!(f.create_reply_at("x".to_string(), a.id, 9, None, 3).unwrap_err(), ForumError::NotFound);
    assert_eq!(
        f.create_reply_at("x".to_string(), a.id, 1, Some(42), 3).unwrap_err(),
        ForumError::NotFound
    );
    // Reply 2 is the seed of thread B: not a parent for thread A.
    assert_eq!(
        f.create_reply_at("x".to_string(), a.id, 1, Some(2), 3).unwrap_err(),
        ForumError::BadRequest
    );
    assert_eq!(f.num_replies(), 2);
    assert_eq!(f.thread_by_id(a.id).unwrap().num_replies, 1);
    assert_eq!(f.thread_by_id(b.id).unwrap().num_replies, 1);
}

#[test]
fn thread_pages_cover_board() {
    let mut f = forum_with_users();
    f.add_board("Other".to_string(), String::new());
    let times = [50, 10, 50, 30, 20];
    for (i, t) in times.iter().enumerate() {
        f.create_thread_at(format!("t{}", i + 1), 1, 1, "x".to_string(), *t).unwrap();
    }
    f.create_thread_at("elsewhere".to_string(), 2, 1, "x".to_string(), 99).unwrap();
    let k = 2u64;
    let n = 5u64;
    let mut seen: Vec<i32> = Vec::new();
    for p in 0..4u64 {
        let page = threads::find_paginated(&f, 1, k, p);
        let expected = std::cmp::min(k, n.saturating_sub(k * p));
        assert_eq!(page.len() as u64, expected);
        for row in page {
            assert_eq!(row.board_id, 1);
            seen.push(row.id);
        }
    }
    // Most recent first; of equal times the newer thread first.
    assert_eq!(seen, vec![3, 1, 4, 5, 2]);
    assert_eq!(threads::find_paginated(&f, 1, 0, 0).len(), 0);
    assert_eq!(threads::find_paginated(&f, 1, u64::MAX, u64::MAX).len(), 0);
}

#[test]
fn reply_pages_ascend_and_parents_are_whole() {
    let mut f = forum_with_users();
    let t = f.create_thread_at("T".to_string(), 1, 1, "root".to_string(), 1).unwrap();
    let other = f.create_thread_at("U".to_string(), 1, 2, "elsewhere".to_string(), 2).unwrap();
    for i in 0..5 {
        let parent = if i % 2 == 0 { Some(1) } else { None };
        f.create_reply_at(format!("r{}", i), t.id, 2, parent, 3 + i).unwrap();
    }
    f.create_reply_at("u".to_string(), other.id, 1, None, 9).unwrap();
    let mut ids: Vec<i32> = Vec::new();
    for p in 0..3u64 {
        for row in replies::find_paginated(&f, t.id, 2, p).unwrap() {
            assert_eq!(row.thread_id, t.id);
            match row.reply_to {
                Some((pid, body, status)) => {
                    assert_eq!(pid, 1);
                    assert_eq!(body, "root");
                    assert_eq!(status, REPLY_LIVE);
                }
                None => {}
            }
            ids.push(row.id);
        }
    }
    assert_eq!(ids, vec![1, 3, 4, 5, 6, 7]);
    assert_eq!(f.thread_by_id(t.id).unwrap().num_replies, 6);
}

#[test]
fn resolve_parent_all_or_nothing() {
    assert_eq!(
        resolve_parent(Some(4), Some("hi".to_string()), Some(2)),
        Ok(Some((4, "hi".to_string(), 2)))
    );
    assert_eq!(resolve_parent(None, None, None), Ok(None));
    assert_eq!(resolve_parent(Some(4), None, None), Err(ForumError::IntegrityFault));
    assert_eq!(resolve_parent(None, Some("hi".to_string()), None), Err(ForumError::IntegrityFault));
    assert_eq!(resolve_parent(Some(4), Some("hi".to_string()), None), Err(ForumError::IntegrityFault));
}

#[test]
fn moderation_by_stranger_is_refused() {
    let mut f = forum_with_users();
    let t = f.create_thread_at("T".to_string(), 1, 1, "mine".to_string(), 1).unwrap();
    assert_eq!(delete_reply(&mut f, 2, 1, "hide", 5), Err(ForumError::Unauthorized));
    assert_eq!(delete_reply(&mut f, 2, 1, "delete", 5), Err(ForumError::Unauthorized));
    let r = f.reply_by_id(1).unwrap();
    assert_eq!(r.reply_status, REPLY_LIVE);
    assert_eq!(r.updated_at, 1);
    assert_eq!(t.id, 1);
}

#[test]
fn moderation_rules() {
    let mut f = forum_with_users();
    f.create_thread_at("T".to_string(), 1, 1, "one".to_string(), 1).unwrap();
    f.create_reply_at("two".to_string(), 1, 1, None, 2).unwrap();
    // The poster may delete but not hide.
    assert_eq!(delete_reply(&mut f, 1, 1, "hide", 3), Err(ForumError::Unauthorized));
    assert_eq!(delete_reply(&mut f, 1, 1, "delete", 3), Ok(()));
    assert_eq!(f.reply_by_id(1).unwrap().reply_status, REPLY_DELETED);
    assert_eq!(f.reply_by_id(1).unwrap().body, "one");
    // A moderator may do both.
    assert_eq!(delete_reply(&mut f, 3, 2, "hide", 4), Ok(()));
    assert_eq!(f.reply_by_id(2).unwrap().reply_status, REPLY_HIDDEN);
    assert_eq!(delete_reply(&mut f, 3, 2, "purge", 4), Err(ForumError::BadRequest));
    assert_eq!(delete_reply(&mut f, 3, 9, "hide", 4), Err(ForumError::NotFound));
    assert_eq!(delete_reply(&mut f, 8, 2, "hide", 4), Err(ForumError::NotFound));
    assert_eq!(moderation_outcome("delete", false, true), Ok(REPLY_DELETED));
    assert_eq!(moderation_outcome("hide", true, false), Err(ForumError::Unauthorized));
    assert_eq!(moderation_outcome("Hide", true, true), Err(ForumError::BadRequest));
    assert!(counters_consistent(&f));
}

#[test]
fn edits_need_ownership() {
    let mut f = forum_with_users();
    f.create_thread_at("T".to_string(), 1, 1, "draft".to_string(), 1).unwrap();
    assert_eq!(update_reply(&mut f, 2, 1, "hijack".to_string(), 2), Err(ForumError::Unauthorized));
    assert_eq!(update_reply(&mut f, 3, 1, "moderated".to_string(), 2), Err(ForumError::Unauthorized));
    assert_eq!(update_reply(&mut f, 1, 5, "none".to_string(), 2), Err(ForumError::NotFound));
    assert_eq!(update_reply(&mut f, 1, 1, "final".to_string(), 7), Ok(()));
    let r = f.reply_by_id(1).unwrap();
    assert_eq!(r.body, "final");
    assert_eq!(r.updated_at, 7);
    assert_eq!(update_user(&mut f, 1, 2, "mallory".to_string()), Err(ForumError::Unauthorized));
    assert_eq!(update_user(&mut f, 9, 9, "ghost".to_string()), Err(ForumError::NotFound));
    assert_eq!(update_user(&mut f, 2, 2, "robert".to_string()), Ok(()));
    assert_eq!(f.user_by_id(2).unwrap().name, "robert");
    assert_eq!(f.user_by_id(1).unwrap().name, "alice");
}

#[test]
fn search_skips_hidden_and_deleted() {
    let mut f = forum_with_users();
    f.create_thread_at("Seagulls".to_string(), 1, 1, "a seagull took my chips".to_string(), 1)
        .unwrap();
    f.create_reply_at("a seagull took my chips".to_string(), 1, 2, None, 2).unwrap();
    f.create_reply_at("a seagull took my chips".to_string(), 1, 2, None, 3).unwrap();
    f.create_reply_at("nothing to see".to_string(), 1, 2, None, 4).unwrap();
    delete_reply(&mut f, 3, 2, "hide", 5).unwrap();
    delete_reply(&mut f, 2, 3, "delete", 5).unwrap();
    let q = SearchQuery { q: "a seagull took my chips".to_string(), limit: default_limit() };
    let resp = search_replies(&f, &q);
    assert_eq!(resp.total_found, 1);
    assert_eq!(resp.results[0].reply_id, 1);
    assert_eq!(resp.results[0].thread_title, "Seagulls");
    assert_eq!(resp.results[0].board_id, 1);
    assert_eq!(resp.results[0].board_title, "Board");
    assert_eq!(resp.results[0].poster_name, "alice");
}

#[test]
fn search_blank_and_limit() {
    let mut f = forum_with_users();
    f.create_thread_at("T".to_string(), 1, 1, "gull one".to_string(), 1).unwrap();
    for i in 0..4 {
        f.create_reply_at(format!("gull {}", i), 1, 2, None, 2 + i).unwrap();
    }
    let all = search_replies(&f, &SearchQuery { q: "gull".to_string(), limit: 50 });
    assert_eq!(all.total_found, 5);
    let few = search_replies(&f, &SearchQuery { q: "gull".to_string(), limit: 2 });
    assert_eq!(few.total_found, 2);
    assert_eq!(few.results[0].reply_id, 1);
    assert_eq!(few.results[1].reply_id, 2);
    let none = search_replies(&f, &SearchQuery { q: "GULL".to_string(), limit: 50 });
    assert_eq!(none.total_found, 0);
    let empty = search_replies(&f, &SearchQuery { q: String::new(), limit: 50 });
    assert_eq!(empty.total_found, 0);
    let spaces = search_replies(&f, &SearchQuery { q: " \t\n\u{3000}".to_string(), limit: 50 });
    assert_eq!(spaces.total_found, 0);
    assert_eq!(default_limit(), 50);
}

#[test]
fn text_helpers() {
    assert!(text_contains("a seagull", "gull"));
    assert!(text_contains("gull", "gull"));
    assert!(text_contains("abc", ""));
    assert!(!text_contains("gul", "gull"));
    assert!(!text_contains("seagull", "Gull"));
    assert!(same_text("héllo", "héllo"));
    assert!(!same_text("hello", "hell"));
    assert!(blank(""));
    assert!(blank(" \t\r\n\u{a0}\u{2003}"));
    assert!(!blank(" x "));
    assert!(!blank("\u{200b}"));
}
