use kboard::boards::{find_all, get_replies, get_threads, page_params};
use kboard::forum::{Forum, ForumError};
use kboard::moderation::find_by_pid;
use kboard::threads;

fn seeded() -> Forum {
    let mut f = Forum::new();
    f.add_user(
        "11111111-1111-1111-1111-111111111111".to_string(),
        "user1@example.com".to_string(),
        "user1".to_string(),
        false,
        false,
    );
    f.add_board("Broken Jaw Stories".to_string(), "Tell everyone.".to_string());
    for (i, title) in ["Seagull", "Chipmunk", "Moose", "Chihuahua"].iter().enumerate() {
        f.create_thread_at(title.to_string(), 1, 1, "Seed.".to_string(), i as i64).unwrap();
    }
    f
}

#[test]
fn can_get_boards() {
    let f = seeded();
    let boards = find_all(&f);
    assert_eq!(boards.len(), 1);
    assert_eq!(boards[0].id, 1);
}

#[test]
fn can_get_threads() {
    let f = seeded();
    let resp = get_threads(&f, 1, None, None);
    assert_eq!(resp.total_count, 4);
    assert_eq!(resp.threads.len(), 4);
    assert_eq!(resp.threads[0].title, "Chihuahua");
}

#[test]
fn can_post_thread() {
    let mut f = seeded();
    let user1 = find_by_pid(&f, "11111111-1111-1111-1111-111111111111").unwrap();
    let thread = threads::create(
        &mut f,
        "I was startled by a Pika.".to_string(),
        1,
        user1,
        "The Pika's cry caught me off guard.".to_string(),
    )
    .unwrap();
    assert_eq!(thread.id, 5);
    let resp = get_replies(&f, 1, 5, Some(1), Some(0)).unwrap();
    assert_eq!(resp.replies.len(), 1);
    assert_eq!(resp.replies[0].body, "The Pika's cry caught me off guard.");
    assert_eq!(resp.total_count, 1);
    assert_eq!(resp.thread_title, "I was startled by a Pika.");
    assert_eq!(resp.board_name, "Broken Jaw Stories");
}

#[test]
fn page_params_default_and_clamp() {
    assert_eq!(page_params(None, None), (10, 0));
    assert_eq!(page_params(Some(0), Some(3)), (1, 3));
    assert_eq!(page_params(Some(500), None), (100, 0));
    assert_eq!(page_params(Some(25), Some(2)), (25, 2));
}

#[test]
fn get_threads_uses_default_page_size() {
    let mut f = seeded();
    for i in 0..8 {
        f.create_thread_at(format!("extra {}", i), 1, 1, "x".to_string(), 100 + i).unwrap();
    }
    let resp = get_threads(&f, 1, None, None);
    assert_eq!(resp.total_count, 12);
    assert_eq!(resp.threads.len(), 10);
    assert_eq!(resp.threads[0].title, "extra 7");
    let second = get_threads(&f, 1, None, Some(1));
    assert_eq!(second.threads.len(), 2);
    assert_eq!(second.threads[1].title, "Seagull");
}

#[test]
fn get_replies_missing_thread_or_board() {
    let f = seeded();
    assert_eq!(get_replies(&f, 1, 99, None, None).unwrap_err(), ForumError::NotFound);
    assert_eq!(get_replies(&f, 7, 1, None, None).unwrap_err(), ForumError::NotFound);
}

#[test]
fn find_by_pid_unknown() {
    let f = seeded();
    assert_eq!(find_by_pid(&f, "33333333-3333-3333-3333-333333333333"), None);
    assert_eq!(find_by_pid(&f, "11111111-1111-1111-1111-111111111111"), Some(1));
}
