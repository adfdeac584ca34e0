use hntui::browse::{article_target, comments_target, selected_post};
use hntui::cursor::StatefulList;
use hntui::record::{Comment, Job, Poll, PollOpt, Post, Story};

fn story(id: u32) -> Post {
    Post::Story(Story {
        id,
        deleted: false,
        by: "alice".to_string(),
        time: 0,
        dead: false,
        kids: Vec::new(),
        descendants: 0,
        score: 0,
        title: "Hello".to_string(),
        url: format!("https://example.com/{}", id),
    })
}

fn job(id: u32) -> Post {
    Post::Job(Job {
        id,
        deleted: false,
        by: "bob".to_string(),
        time: 0,
        dead: false,
        kids: Vec::new(),
        text: String::new(),
        url: "https://jobs.example.com/1".to_string(),
        title: "Hiring".to_string(),
    })
}

fn others() -> Vec<Post> {
    vec![
        Post::Comment(Comment {
            id: 3,
            deleted: false,
            by: "carol".to_string(),
            time: 0,
            dead: false,
            kids: Vec::new(),
            parent: 1,
            text: "see https://example.com".to_string(),
        }),
        Post::Poll(Poll {
            id: 4,
            deleted: false,
            by: "dave".to_string(),
            time: 0,
            dead: false,
            kids: Vec::new(),
            parts: Vec::new(),
            descendants: 0,
            score: 0,
            title: "A poll".to_string(),
            text: String::new(),
        }),
        Post::PollOpt(PollOpt {
            id: 5,
            deleted: false,
            by: "dave".to_string(),
            time: 0,
            dead: false,
            kids: Vec::new(),
            parent: 4,
            score: 0,
        }),
    ]
}

#[test]
fn the_comments_of_a_story_and_a_job_have_a_page() {
    assert_eq!(
        comments_target(&story(26_446_070)),
        Some("https://news.ycombinator.com/item?id=26446070".to_string())
    );
    assert_eq!(
        comments_target(&job(8)),
        Some("https://news.ycombinator.com/item?id=8".to_string())
    );
    assert_eq!(
        comments_target(&story(0)),
        Some("https://news.ycombinator.com/item?id=0".to_string())
    );
    assert_eq!(
        comments_target(&story(u32::MAX)),
        Some("https://news.ycombinator.com/item?id=4294967295".to_string())
    );
}

#[test]
fn the_article_of_a_story_and_a_job_is_its_link() {
    assert_eq!(article_target(&story(9)), Some("https://example.com/9".to_string()));
    assert_eq!(article_target(&job(8)), Some("https://jobs.example.com/1".to_string()));
}

#[test]
fn other_kinds_have_nothing_to_open() {
    for post in others() {
        assert_eq!(comments_target(&post), None);
        assert_eq!(article_target(&post), None);
    }
}

#[test]
fn the_selected_record_is_that_of_the_selected_item() {
    let items = vec![(1, story(10)), (2, job(20)), (3, story(30))];
    assert_eq!(selected_post(&items, Some(0)), Some(&story(10)));
    assert_eq!(selected_post(&items, Some(1)), Some(&job(20)));
    assert_eq!(selected_post(&items, Some(2)), Some(&story(30)));
    assert_eq!(selected_post(&items, Some(3)), None);
    assert_eq!(selected_post(&items, Some(usize::MAX)), None);
    assert_eq!(selected_post(&items, None), None);
    assert_eq!(selected_post(&Vec::new(), Some(0)), None);
}

#[test]
fn the_selected_row_leads_to_the_record_above_it() {
    let items = vec![(1, story(10)), (2, job(20)), (3, story(30))];
    let mut list = StatefulList::new(vec![0u8; 6], true);
    assert_eq!(selected_post(&items, list.selected_item()), None);
    list.next();
    assert_eq!(selected_post(&items, list.selected_item()), Some(&story(10)));
    list.next();
    assert_eq!(selected_post(&items, list.selected_item()), Some(&job(20)));
    list.next();
    assert_eq!(selected_post(&items, list.selected_item()), Some(&story(30)));
    list.next();
    assert_eq!(list.selected(), Some(6));
    assert_eq!(selected_post(&items, list.selected_item()), None);
}
