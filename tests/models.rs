use kboard::boards::find_all;
use kboard::forum::{Forum, REPLY_LIVE};
use kboard::replies;
use kboard::threads;

/// Two users, two boards, four threads on board 1 (each with its seed reply)
/// and one answer in thread 1.
fn seeded() -> Forum {
    let mut f = Forum::new();
    f.add_user(
        "11111111-1111-1111-1111-111111111111".to_string(),
        "user1@example.com".to_string(),
        "user1".to_string(),
        false,
        false,
    );
    f.add_user(
        "22222222-2222-2222-2222-222222222222".to_string(),
        "user2@example.com".to_string(),
        "user2".to_string(),
        false,
        false,
    );
    f.add_board("Broken Jaw Stories".to_string(), "Tell everyone.".to_string());
    f.add_board("Lingering Symptoms".to_string(), "Clicking and tension.".to_string());
    let titles = [
        "Startled by a seagull.",
        "Startled by a chipmunk.",
        "Startled by a moose.",
        "Startled by a chihuahua.",
    ];
    for (i, title) in titles.iter().enumerate() {
        f.create_thread_at(
            title.to_string(),
            1,
            1,
            "It happened so fast.".to_string(),
            1_000 + (i as i64) * 100,
        )
        .unwrap();
    }
    f.create_reply_at("Oh wow. That's terrible!".to_string(), 1, 2, Some(1), 2_000)
        .unwrap();
    f
}

#[test]
fn test_findall() {
    let f = seeded();
    let boards = find_all(&f);
    assert_eq!(boards.len(), 2);
    assert_eq!(boards[0].title, "Broken Jaw Stories");
    assert_eq!(boards[0].num_threads, 4);
    assert_eq!(boards[1].title, "Lingering Symptoms");
    assert_eq!(boards[1].num_threads, 0);
}

#[test]
fn replies_test_create() {
    let mut f = seeded();
    let reply = replies::create(
        &mut f,
        "I've had some bad experiences with seagulls myself.".to_string(),
        1,
        2,
        Some(1),
    )
    .unwrap();
    assert_eq!(reply.body, "I've had some bad experiences with seagulls myself.");
    assert_eq!(reply.id, 6);
    assert_eq!(reply.thread_id, 1);
    assert_eq!(reply.poster, 2);
    assert_eq!(reply.reply_to, Some(1));
    assert_eq!(reply.reply_status, REPLY_LIVE);
    assert_eq!(f.thread_by_id(1).unwrap().num_replies, 3);
}

#[test]
fn replies_test_find_paginated_all() {
    let f = seeded();
    let rows = replies::find_paginated(&f, 1, 2000, 0).unwrap();
    assert_eq!(rows.len(), 2);
    assert_eq!(rows[0].body, "It happened so fast.");
    assert_eq!(rows[0].reply_to, None);
    assert_eq!(rows[1].reply_to, Some((1, "It happened so fast.".to_string(), REPLY_LIVE)));
}

#[test]
fn replies_test_find_paginated_second_page() {
    let f = seeded();
    let rows = replies::find_paginated(&f, 1, 1, 1).unwrap();
    assert_eq!(rows.len(), 1);
    assert_eq!(rows[0].body, "Oh wow. That's terrible!".to_string());
    assert_eq!(rows[0].poster_username, "user2");
}

#[test]
fn threads_test_create() {
    let mut f = seeded();
    let thread = threads::create(
        &mut f,
        "Car crash.".to_string(),
        1,
        2,
        "I got in a car crash and broke my jaw.".to_string(),
    )
    .unwrap();
    assert_eq!(thread.id, 5);
    assert_eq!(thread.title, "Car crash.");
    assert_eq!(thread.description, "");
    assert_eq!(thread.board_id, 1);
    assert_eq!(thread.poster, 2);
    assert_eq!(thread.num_replies, 1);
    // The clock is read: any instant after 2020-01-01 will do.
    assert!(thread.last_active > 1_577_836_800_000_000);
    assert_eq!(f.board_by_id(1).unwrap().num_threads, 5);
    let seed = f.reply_by_id(6).unwrap();
    assert_eq!(seed.body, "I got in a car crash and broke my jaw.");
    assert_eq!(seed.thread_id, 5);
    assert_eq!(seed.reply_to, None);
}

#[test]
fn threads_test_find_paginated_all() {
    let f = seeded();
    let rows = threads::find_paginated(&f, 1, 2000, 0);
    assert_eq!(rows.len(), 4);
    assert_eq!(rows[0].poster_username, "user1");
}

#[test]
fn test_find_paginated_some() {
    let f = seeded();
    let rows = threads::find_paginated(&f, 1, 2, 0);
    assert_eq!(rows.len(), 2);
    assert_eq!(rows[0].title, "Startled by a chihuahua.");
    assert_eq!(rows[1].title, "Startled by a moose.");
}

#[test]
fn threads_test_find_paginated_second_page() {
    let f = seeded();
    let rows = threads::find_paginated(&f, 1, 2, 1);
    assert_eq!(rows.len(), 2);
    assert_eq!(rows[0].title, "Startled by a chipmunk.");
    assert_eq!(rows[1].title, "Startled by a seagull.");
}

#[test]
fn count_by_board_counts_each_board() {
    let f = seeded();
    assert_eq!(threads::count_by_board(&f, 1), 4);
    assert_eq!(threads::count_by_board(&f, 2), 0);
    assert_eq!(threads::count_by_board(&f, 9), 0);
}
