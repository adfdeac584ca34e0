use hntui::record::{Comment, Job, Poll, PollOpt, Post, Story};
use hntui::render::{
    generate_list_items, post_item, Color, PostItem, RenderedRow, Span, Style,
};

const NOW: i64 = 1_600_000_000;

fn story() -> Story {
    Story {
        id: 11,
        deleted: false,
        by: "alice".to_string(),
        time: NOW - 2 * 3_600,
        dead: false,
        kids: vec![12, 13],
        descendants: 1,
        score: 1,
        title: "Hello".to_string(),
        url: "https://example.com/a/b".to_string(),
    }
}

fn job() -> Job {
    Job {
        id: 21,
        deleted: false,
        by: "bob".to_string(),
        time: NOW - 3 * 86_400,
        dead: false,
        kids: Vec::new(),
        text: "apply within".to_string(),
        url: "jobs.example.com".to_string(),
        title: "Hiring".to_string(),
    }
}

fn poll() -> Poll {
    Poll {
        id: 31,
        deleted: false,
        by: "carol".to_string(),
        time: NOW - 45,
        dead: false,
        kids: Vec::new(),
        parts: vec![32, 33],
        descendants: 7,
        score: 120,
        title: "Tabs or spaces?".to_string(),
        text: String::new(),
    }
}

fn comment() -> Comment {
    Comment {
        id: 41,
        deleted: false,
        by: "dave".to_string(),
        time: NOW - 60,
        dead: false,
        kids: vec![42],
        parent: 11,
        text: "a \"quoted\" remark".to_string(),
    }
}

fn poll_opt() -> PollOpt {
    PollOpt {
        id: 32,
        deleted: false,
        by: "carol".to_string(),
        time: NOW + 10,
        dead: false,
        kids: Vec::new(),
        parent: 31,
        score: 0,
    }
}

fn red() -> Style {
    Style { fg: Some(Color::Red), italic: false }
}

fn plain() -> Style {
    Style { fg: None, italic: false }
}

fn span(content: &str, style: Style) -> Span {
    Span { content: content.to_string(), style }
}

fn meta(content: &str) -> RenderedRow {
    RenderedRow { spans: vec![span(content, Style { fg: Some(Color::LightBlue), italic: false })] }
}

#[test]
fn a_story_shows_title_host_score_author_age_and_comments() {
    let item = post_item(1, &Post::Story(story()), NOW);
    assert_eq!(
        item.top_item,
        RenderedRow {
            spans: vec![
                span("1", red()),
                span(" Hello", plain()),
                span(" (example.com)", Style { fg: None, italic: true }),
            ]
        }
    );
    assert_eq!(item.bottom_item, meta("  1 point by alice | 2 hours ago | 1 comment"));
}

#[test]
fn a_story_with_more_points_and_comments_takes_the_plural() {
    let mut story = story();
    story.score = 2;
    story.descendants = 0;
    let item = post_item(3, &Post::Story(story), NOW);
    assert_eq!(item.bottom_item, meta("  2 points by alice | 2 hours ago | 0 comments"));
}

#[test]
fn a_job_shows_title_link_author_and_age() {
    let item = post_item(7, &Post::Job(job()), NOW);
    assert_eq!(
        item.top_item,
        RenderedRow {
            spans: vec![
                span("7", red()),
                span(" Hiring", plain()),
                span(" (jobs.example.com)", Style { fg: Some(Color::Gray), italic: true }),
            ]
        }
    );
    assert_eq!(item.bottom_item, meta("  by bob | 3 days ago"));
}

#[test]
fn a_job_with_a_full_link_shows_its_host() {
    let mut job = job();
    job.url = "https://jobs.example.com/apply/now".to_string();
    let item = post_item(7, &Post::Job(job), NOW);
    assert_eq!(item.top_item.spans[2].content, " (jobs.example.com)");
}

#[test]
fn a_poll_shows_title_score_author_age_and_comments() {
    let item = post_item(12, &Post::Poll(poll()), NOW);
    assert_eq!(
        item.top_item,
        RenderedRow { spans: vec![span("12", red()), span(" Tabs or spaces?", plain())] }
    );
    assert_eq!(item.bottom_item, meta("   120 points by carol | 45 seconds ago | 7 comments"));
}

#[test]
fn a_comment_shows_its_debug_text_author_and_age() {
    let comment = comment();
    let item = post_item(2, &Post::Comment(comment.clone()), NOW);
    assert_eq!(
        item.top_item,
        RenderedRow { spans: vec![span("2", red()), span(&format!(" {:?}", comment), plain())] }
    );
    assert!(item.top_item.spans[1].content.starts_with(" Comment { id: 41, "));
    assert!(item.top_item.spans[1].content.contains("text: \"a \\\"quoted\\\" remark\""));
    assert_eq!(item.bottom_item, meta("  by dave | 1 minute ago"));
}

#[test]
fn a_choice_of_a_poll_shows_its_debug_text_score_author_and_age() {
    let poll_opt = poll_opt();
    let item = post_item(100, &Post::PollOpt(poll_opt.clone()), NOW);
    assert_eq!(
        item.top_item,
        RenderedRow {
            spans: vec![span("100", red()), span(&format!(" {:?}", poll_opt), plain())]
        }
    );
    assert!(item.top_item.spans[1].content.starts_with(" PollOpt { id: 32, "));
    assert_eq!(item.bottom_item, meta("    0 points by carol | "));
}

#[test]
fn the_second_row_is_indented_by_the_width_of_the_position() {
    for (pos, indent) in [(1, " "), (9, " "), (10, "  "), (99, "  "), (100, "   "), (500, "   ")] {
        let item = post_item(pos, &Post::Job(job()), NOW);
        assert_eq!(item.top_item.spans[0].content, format!("{}", pos));
        assert_eq!(item.bottom_item.spans[0].content, format!(" {}by bob | 3 days ago", indent));
    }
}

#[test]
fn a_list_gives_two_rows_for_each_record_in_order() {
    let items = vec![
        (1, Post::Story(story())),
        (2, Post::Job(job())),
        (3, Post::Poll(poll())),
        (4, Post::Comment(comment())),
        (5, Post::PollOpt(poll_opt())),
    ];
    let rows = generate_list_items(&items, NOW);
    assert_eq!(rows.len(), 10);
    for (i, (pos, post)) in items.iter().enumerate() {
        let item = post_item(*pos, post, NOW);
        assert_eq!(rows[2 * i], item.top_item);
        assert_eq!(rows[2 * i + 1], item.bottom_item);
        assert_eq!(rows[2 * i].spans[0].content, format!("{}", i + 1));
    }
    assert_eq!(rows[2].spans[1].content, " Hiring");
    assert_eq!(rows[5], meta("  120 points by carol | 45 seconds ago | 7 comments"));
}

#[test]
fn no_records_give_no_rows() {
    assert_eq!(generate_list_items(&Vec::new(), NOW), Vec::new());
}

#[test]
fn the_rows_depend_on_the_time_at_which_they_are_made() {
    let items = vec![(1, Post::Story(story()))];
    let now = generate_list_items(&items, NOW);
    let later = generate_list_items(&items, NOW + 7 * 86_400);
    assert_eq!(now[0], later[0]);
    assert_eq!(later[1], meta("  1 point by alice | 1 week ago | 1 comment"));
    let before = generate_list_items(&items, NOW - 86_400);
    assert_eq!(before[1], meta("  1 point by alice |  | 1 comment"));
}

#[test]
fn the_two_rows_of_a_record_come_title_first() {
    let top = RenderedRow { spans: vec![span("1", red())] };
    let bottom = meta(" by nobody");
    let item = PostItem::new(top.clone(), bottom.clone());
    assert_eq!(item.top_item, top);
    assert_eq!(item.bottom_item, bottom);
    assert_eq!(item.into_rows(), vec![top, bottom]);
}

#[test]
fn styles_are_built_step_by_step() {
    assert_eq!(Style::plain(), Style { fg: None, italic: false });
    assert_eq!(Style::plain().fg(Color::Red), Style { fg: Some(Color::Red), italic: false });
    assert_eq!(Style::plain().italic(), Style { fg: None, italic: true });
    assert_eq!(
        Style::plain().fg(Color::Gray).italic(),
        Style { fg: Some(Color::Gray), italic: true }
    );
    assert_eq!(
        Style::plain().italic().fg(Color::LightBlue),
        Style { fg: Some(Color::LightBlue), italic: true }
    );
    assert_eq!(Span::raw("x".to_string()), span("x", plain()));
    assert_eq!(Span::styled("x".to_string(), red()), span("x", red()));
}
