use hntui::record::{
    rows_per_item, Comment, Job, Poll, PollOpt, Post, PostKind, Story, Updates, User,
};

fn posts() -> Vec<(Post, PostKind, u32, i64)> {
    vec![
        (
            Post::Job(Job {
                id: 1,
                deleted: false,
                by: String::new(),
                time: 10,
                dead: false,
                kids: Vec::new(),
                text: String::new(),
                url: String::new(),
                title: String::new(),
            }),
            PostKind::Job,
            1,
            10,
        ),
        (
            Post::Story(Story {
                id: 2,
                deleted: false,
                by: String::new(),
                time: 20,
                dead: false,
                kids: Vec::new(),
                descendants: 0,
                score: 0,
                title: String::new(),
                url: String::new(),
            }),
            PostKind::Story,
            2,
            20,
        ),
        (
            Post::Comment(Comment {
                id: 3,
                deleted: true,
                by: String::new(),
                time: -30,
                dead: false,
                kids: Vec::new(),
                parent: 2,
                text: String::new(),
            }),
            PostKind::Comment,
            3,
            -30,
        ),
        (
            Post::Poll(Poll {
                id: 4,
                deleted: false,
                by: String::new(),
                time: 40,
                dead: true,
                kids: Vec::new(),
                parts: vec![5],
                descendants: 0,
                score: 0,
                title: String::new(),
                text: String::new(),
            }),
            PostKind::Poll,
            4,
            40,
        ),
        (
            Post::PollOpt(PollOpt {
                id: u32::MAX,
                deleted: false,
                by: String::new(),
                time: i64::MAX,
                dead: false,
                kids: Vec::new(),
                parent: 4,
                score: 0,
            }),
            PostKind::PollOpt,
            u32::MAX,
            i64::MAX,
        ),
    ]
}

#[test]
fn a_record_knows_its_kind_id_and_time() {
    for (post, kind, id, time) in posts() {
        assert_eq!(post.kind(), kind);
        assert_eq!(post.id(), id);
        assert_eq!(post.time(), time);
    }
}

#[test]
fn every_kind_takes_two_rows() {
    for kind in
        [PostKind::Job, PostKind::Story, PostKind::Comment, PostKind::Poll, PostKind::PollOpt]
    {
        assert_eq!(rows_per_item(kind), 2);
    }
}

#[test]
fn a_default_user_is_empty_and_created_now() {
    let before = time::OffsetDateTime::now_utc().unix_timestamp();
    let user = User::default();
    let after = time::OffsetDateTime::now_utc().unix_timestamp();
    assert_eq!(user.id, "");
    assert_eq!(user.karma, 0);
    assert_eq!(user.about, "");
    assert!(user.submitted.is_empty());
    assert!(before <= user.created && user.created <= after);
    assert!(user.created > 1_600_000_000);
}

#[test]
fn updates_hold_items_and_profiles() {
    let updates = Updates { items: vec![1, 2, 3], profiles: vec!["alice".to_string()] };
    assert_eq!(updates.items, vec![1, 2, 3]);
    assert_eq!(updates.profiles, vec!["alice".to_string()]);
    assert_eq!(updates.clone(), updates);
}
