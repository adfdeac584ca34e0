//! Turning a collected list into display rows: two rows for each record, a title
//! row and a row of metadata.
//!
//! The rows are plain data. The program that draws them maps each span to what
//! its terminal library draws.

use vstd::prelude::*;
use crate::age::{get_time_offset, time_offset};
use crate::record::{
    spec_rows_per_item, Comment, Job, Poll, PollOpt, Post, PostKind, Story, ROWS_PER_ITEM,
};
use crate::text::{blanks, decimal, decimal_string, noun, noun_for, spaces};
use crate::url::{display_url, extract_url, shown_url, url_host};

verus! {

/// The colours that the rows use.
#[derive(Copy, Clone, Debug, PartialEq, Eq)]
pub enum Color {
    Red,
    Gray,
    LightBlue,
}

/// How a span is drawn: in a colour or in the terminal's own, upright or italic.
#[derive(Copy, Clone, Debug, PartialEq, Eq)]
pub struct Style {
    pub fg: Option<Color>,
    pub italic: bool,
}

/// A run of text in one style.
#[derive(Clone, Debug, PartialEq, Eq)]
pub struct Span {
    pub content: String,
    pub style: Style,
}

/// One display row: spans from left to right.
#[derive(Clone, Debug, PartialEq, Eq)]
pub struct RenderedRow {
    pub spans: Vec<Span>,
}

/// The two rows of one record.
#[derive(Clone, Debug, PartialEq, Eq)]
pub struct PostItem {
    pub top_item: RenderedRow,
    pub bottom_item: RenderedRow,
}

/// A span as contracts see it.
pub struct SpanView {
    pub content: Seq<char>,
    pub style: Style,
}

impl View for Span {
    type V = SpanView;

    open spec fn view(&self) -> SpanView {
        SpanView { content: self.content@, style: self.style }
    }
}

impl View for RenderedRow {
    type V = Seq<SpanView>;

    open spec fn view(&self) -> Seq<SpanView> {
        self.spans@.map_values(|span: Span| span@)
    }
}

impl Style {
    /// The terminal's own colour, upright.
    pub open spec fn spec_plain() -> Style {
        Style { fg: None, italic: false }
    }

    pub open spec fn spec_fg(self, color: Color) -> Style {
        Style { fg: Some(color), italic: self.italic }
    }

    pub open spec fn spec_italic(self) -> Style {
        Style { fg: self.fg, italic: true }
    }

    /// The terminal's own colour, upright.
    #[verifier::when_used_as_spec(spec_plain)]
    pub fn plain() -> (style: Style)
        ensures
            style == Style::spec_plain(),
    {
        Style { fg: None, italic: false }
    }

    /// The same style in the given colour.
    #[verifier::when_used_as_spec(spec_fg)]
    pub fn fg(self, color: Color) -> (style: Style)
        ensures
            style == self.spec_fg(color),
    {
        Style { fg: Some(color), italic: self.italic }
    }

    /// The same style in italics.
    #[verifier::when_used_as_spec(spec_italic)]
    pub fn italic(self) -> (style: Style)
        ensures
            style == self.spec_italic(),
    {
        Style { fg: self.fg, italic: true }
    }
}

impl Span {
    /// Text in the given style.
    pub fn styled(content: String, style: Style) -> (span: Span)
        ensures
            span@ == (SpanView { content: content@, style }),
    {
        Span { content, style }
    }

    /// Text in the terminal's own style.
    pub fn raw(content: String) -> (span: Span)
        ensures
            span@ == (SpanView { content: content@, style: Style::spec_plain() }),
    {
        Span { content, style: Style::plain() }
    }
}

impl PostItem {
    /// The two rows of one record.
    pub fn new(content_top: RenderedRow, content_bottom: RenderedRow) -> (item: PostItem)
        ensures
            item.top_item == content_top,
            item.bottom_item == content_bottom,
    {
        PostItem { top_item: content_top, bottom_item: content_bottom }
    }

    /// The rows of the record, the title row first.
    pub fn into_rows(self) -> (rows: Vec<RenderedRow>)
        ensures
            rows@ == seq![self.top_item, self.bottom_item],
    {
        let mut rows = Vec::new();
        rows.push(self.top_item);
        rows.push(self.bottom_item);
        assert(rows@ =~= seq![self.top_item, self.bottom_item]);
        rows
    }
}

/// The position of a record in its list, in red.
pub open spec fn position_span(pos: nat) -> SpanView {
    SpanView { content: decimal(pos), style: Style::spec_plain().spec_fg(Color::Red) }
}

/// A title, after one space.
pub open spec fn title_span(title: Seq<char>) -> SpanView {
    SpanView { content: " "@ + title, style: Style::spec_plain() }
}

/// What is shown of a link: its host in brackets, or the whole link where no
/// host is found in it.
pub open spec fn link_span(url: Seq<char>, style: Style) -> SpanView {
    SpanView { content: " ("@ + shown_url(url, url_host(url)) + ")"@, style }
}

/// The blanks that stand under the position in the second row.
pub open spec fn indent(pos: nat) -> Seq<char> {
    blanks(decimal(pos).len())
}

/// Who wrote the record and when.
pub open spec fn byline(by: Seq<char>, elapsed: int) -> Seq<char> {
    "by "@ + by + " | "@ + time_offset(elapsed)
}

/// A score, as in "12 points".
pub open spec fn points(score: u32) -> Seq<char> {
    decimal(score as nat) + " "@ + noun_for(score as int, "point"@, "points"@) + " "@
}

/// A number of comments, as in " | 1 comment".
pub open spec fn replies(descendants: u32) -> Seq<char> {
    " | "@ + decimal(descendants as nat) + " "@ + noun_for(
        descendants as int,
        "comment"@,
        "comments"@,
    )
}

/// The second row of a record: one span in light blue.
pub open spec fn meta_row(text: Seq<char>) -> Seq<SpanView> {
    seq![SpanView { content: text, style: Style::spec_plain().spec_fg(Color::LightBlue) }]
}

fn position_of(pos: usize) -> (span: Span)
    ensures
        span@ == position_span(pos as nat),
{
    Span::styled(decimal_string(pos as u64), Style::plain().fg(Color::Red))
}

fn title_of(title: &str) -> (span: Span)
    ensures
        span@ == title_span(title@),
{
    let mut content = String::from_str(" ");
    content.append(title);
    Span::styled(content, Style::plain())
}

fn link_of(url: &str, style: Style) -> (span: Span)
    ensures
        span@ == link_span(url@, style),
{
    let shown = display_url(url, extract_url(url));
    let mut content = String::from_str(" (");
    content.append(shown);
    content.append(")");
    Span::styled(content, style)
}

/// The start of a second row: one space, and then blanks as wide as the
/// position above.
fn indent_of(pos: usize) -> (text: String)
    ensures
        text@ == " "@ + indent(pos as nat),
{
    let number = decimal_string(pos as u64);
    let digits = number.as_str().unicode_len();
    let padding = spaces(digits);
    let mut text = String::from_str(" ");
    text.append(padding.as_str());
    text
}

fn append_byline(text: &mut String, by: &str, current_time: i64, time: i64)
    ensures
        final(text)@ == old(text)@ + byline(by@, current_time - time),
{
    let offset = get_time_offset(current_time, time);
    text.append("by ");
    text.append(by);
    text.append(" | ");
    text.append(offset.as_str());
    assert(text@ =~= old(text)@ + byline(by@, current_time - time));
}

fn append_points(text: &mut String, score: u32)
    ensures
        final(text)@ == old(text)@ + points(score),
{
    text.append(decimal_string(score as u64).as_str());
    text.append(" ");
    text.append(noun(score as u64, "point", "points"));
    text.append(" ");
    assert(text@ =~= old(text)@ + points(score));
}

fn append_replies(text: &mut String, descendants: u32)
    ensures
        final(text)@ == old(text)@ + replies(descendants),
{
    text.append(" | ");
    text.append(decimal_string(descendants as u64).as_str());
    text.append(" ");
    text.append(noun(descendants as u64, "comment", "comments"));
    assert(text@ =~= old(text)@ + replies(descendants));
}

fn row_of_one(span: Span) -> (row: RenderedRow)
    ensures
        row@ == seq![span@],
{
    let mut spans = Vec::new();
    spans.push(span);
    let row = RenderedRow { spans };
    assert(row@ =~= seq![span@]);
    row
}

fn row_of_two(first: Span, second: Span) -> (row: RenderedRow)
    ensures
        row@ == seq![first@, second@],
{
    let mut spans = Vec::new();
    spans.push(first);
    spans.push(second);
    let row = RenderedRow { spans };
    assert(row@ =~= seq![first@, second@]);
    row
}

fn row_of_three(first: Span, second: Span, third: Span) -> (row: RenderedRow)
    ensures
        row@ == seq![first@, second@, third@],
{
    let mut spans = Vec::new();
    spans.push(first);
    spans.push(second);
    spans.push(third);
    let row = RenderedRow { spans };
    assert(row@ =~= seq![first@, second@, third@]);
    row
}

fn meta_of(text: String) -> (row: RenderedRow)
    ensures
        row@ == meta_row(text@),
{
    row_of_one(Span::styled(text, Style::plain().fg(Color::LightBlue)))
}

/// The text that `Debug` formatting gives for a comment.
pub uninterp spec fn comment_debug(comment: Comment) -> Seq<char>;

/// The text that `Debug` formatting gives for a choice of a poll.
pub uninterp spec fn poll_opt_debug(poll_opt: PollOpt) -> Seq<char>;

/// Formats a comment with `{:?}`, that is through `std::fmt` and the `Debug`
/// impl that `derive` wrote for `Comment`.
///
/// Trusted: that equal comments give equal text.
#[verifier::external_body]
fn debug_comment(comment: &Comment) -> (text: String)
    ensures
        text@ == comment_debug(*comment),
{
    format!("{:?}", comment)
}

/// Formats a choice of a poll with `{:?}`, that is through `std::fmt` and the
/// `Debug` impl that `derive` wrote for `PollOpt`.
///
/// Trusted: that equal choices give equal text.
#[verifier::external_body]
fn debug_poll_opt(poll_opt: &PollOpt) -> (text: String)
    ensures
        text@ == poll_opt_debug(*poll_opt),
{
    format!("{:?}", poll_opt)
}

/// The title row of a record at position `pos`: the position in red; then the
/// title, and for a story or a job what is shown of its link, in italics (grey
/// for a job). A comment and a choice of a poll have no title: their `Debug`
/// text stands in its place.
pub open spec fn top_row(pos: nat, post: Post) -> Seq<SpanView> {
    match post {
        Post::Comment(comment) => seq![position_span(pos), title_span(comment_debug(comment))],
        Post::Job(job) => seq![
            position_span(pos),
            title_span(job.title@),
            link_span(job.url@, Style::spec_plain().spec_fg(Color::Gray).spec_italic()),
        ],
        Post::Poll(poll) => seq![position_span(pos), title_span(poll.title@)],
        Post::PollOpt(poll_opt) => seq![
            position_span(pos),
            title_span(poll_opt_debug(poll_opt)),
        ],
        Post::Story(story) => seq![
            position_span(pos),
            title_span(story.title@),
            link_span(story.url@, Style::spec_plain().spec_italic()),
        ],
    }
}

/// The row of metadata of a record at position `pos`, seen at `current_time`:
/// indented to stand under the title; the score, where the kind has one; the
/// author and the age; the number of comments, for a story and a poll.
pub open spec fn bottom_row(pos: nat, post: Post, current_time: int) -> Seq<SpanView> {
    match post {
        Post::Comment(comment) => meta_row(
            " "@ + indent(pos) + byline(comment.by@, current_time - comment.time),
        ),
        Post::Job(job) => meta_row(" "@ + indent(pos) + byline(job.by@, current_time - job.time)),
        Post::Poll(poll) => meta_row(
            " "@ + indent(pos) + points(poll.score) + byline(poll.by@, current_time - poll.time)
                + replies(poll.descendants),
        ),
        Post::PollOpt(poll_opt) => meta_row(
            " "@ + indent(pos) + points(poll_opt.score) + byline(
                poll_opt.by@,
                current_time - poll_opt.time,
            ),
        ),
        Post::Story(story) => meta_row(
            " "@ + indent(pos) + points(story.score) + byline(
                story.by@,
                current_time - story.time,
            ) + replies(story.descendants),
        ),
    }
}

/// The rows of a whole list: for the record at index `i`, its title row at
/// `2 * i` and its row of metadata at `2 * i + 1`.
pub open spec fn list_rows(items: Seq<(usize, Post)>, current_time: int) -> Seq<Seq<SpanView>> {
    Seq::new(
        2 * items.len(),
        |row: int|
            if row % 2 == 0 {
                top_row(items[row / 2].0 as nat, items[row / 2].1)
            } else {
                bottom_row(items[row / 2].0 as nat, items[row / 2].1, current_time)
            },
    )
}

/// The rows as contracts see them.
pub open spec fn rows_view(rows: Seq<RenderedRow>) -> Seq<Seq<SpanView>> {
    rows.map_values(|row: RenderedRow| row@)
}

fn comment_item(pos: usize, comment: &Comment, current_time: i64) -> (item: PostItem)
    ensures
        item.top_item@ == top_row(pos as nat, Post::Comment(*comment)),
        item.bottom_item@ == bottom_row(pos as nat, Post::Comment(*comment), current_time as int),
{
    let top = row_of_two(position_of(pos), title_of(debug_comment(comment).as_str()));
    let mut text = indent_of(pos);
    append_byline(&mut text, comment.by.as_str(), current_time, comment.time);
    PostItem::new(top, meta_of(text))
}

fn job_item(pos: usize, job: &Job, current_time: i64) -> (item: PostItem)
    ensures
        item.top_item@ == top_row(pos as nat, Post::Job(*job)),
        item.bottom_item@ == bottom_row(pos as nat, Post::Job(*job), current_time as int),
{
    let top = row_of_three(
        position_of(pos),
        title_of(job.title.as_str()),
        link_of(job.url.as_str(), Style::plain().fg(Color::Gray).italic()),
    );
    let mut text = indent_of(pos);
    append_byline(&mut text, job.by.as_str(), current_time, job.time);
    PostItem::new(top, meta_of(text))
}

fn poll_item(pos: usize, poll: &Poll, current_time: i64) -> (item: PostItem)
    ensures
        item.top_item@ == top_row(pos as nat, Post::Poll(*poll)),
        item.bottom_item@ == bottom_row(pos as nat, Post::Poll(*poll), current_time as int),
{
    let top = row_of_two(position_of(pos), title_of(poll.title.as_str()));
    let mut text = indent_of(pos);
    append_points(&mut text, poll.score);
    append_byline(&mut text, poll.by.as_str(), current_time, poll.time);
    append_replies(&mut text, poll.descendants);
    PostItem::new(top, meta_of(text))
}

fn poll_opt_item(pos: usize, poll_opt: &PollOpt, current_time: i64) -> (item: PostItem)
    ensures
        item.top_item@ == top_row(pos as nat, Post::PollOpt(*poll_opt)),
        item.bottom_item@ == bottom_row(pos as nat, Post::PollOpt(*poll_opt), current_time as int),
{
    let top = row_of_two(position_of(pos), title_of(debug_poll_opt(poll_opt).as_str()));
    let mut text = indent_of(pos);
    append_points(&mut text, poll_opt.score);
    append_byline(&mut text, poll_opt.by.as_str(), current_time, poll_opt.time);
    PostItem::new(top, meta_of(text))
}

fn story_item(pos: usize, story: &Story, current_time: i64) -> (item: PostItem)
    ensures
        item.top_item@ == top_row(pos as nat, Post::Story(*story)),
        item.bottom_item@ == bottom_row(pos as nat, Post::Story(*story), current_time as int),
{
    let top = row_of_three(
        position_of(pos),
        title_of(story.title.as_str()),
        link_of(story.url.as_str(), Style::plain().italic()),
    );
    let mut text = indent_of(pos);
    append_points(&mut text, story.score);
    append_byline(&mut text, story.by.as_str(), current_time, story.time);
    append_replies(&mut text, story.descendants);
    PostItem::new(top, meta_of(text))
}

/// The two rows of the record at position `pos`, seen at `current_time`.
pub fn post_item(pos: usize, post: &Post, current_time: i64) -> (item: PostItem)
    ensures
        item.top_item@ == top_row(pos as nat, *post),
        item.bottom_item@ == bottom_row(pos as nat, *post, current_time as int),
{
    match post {
        Post::Comment(comment) => comment_item(pos, comment, current_time),
        Post::Job(job) => job_item(pos, job, current_time),
        Post::Poll(poll) => poll_item(pos, poll, current_time),
        Post::PollOpt(poll_opt) => poll_opt_item(pos, poll_opt, current_time),
        Post::Story(story) => story_item(pos, story, current_time),
    }
}

/// The display rows of a collected list, seen at `current_time` (a Unix
/// timestamp): two rows for each record, in the order of the list.
pub fn generate_list_items(items: &Vec<(usize, Post)>, current_time: i64) -> (rows: Vec<
    RenderedRow,
>)
    ensures
        rows@.len() == ROWS_PER_ITEM * items@.len(),
        rows_view(rows@) == list_rows(items@, current_time as int),
{
    let mut rows: Vec<RenderedRow> = Vec::new();
    let mut i: usize = 0;
    while i < items.len()
        invariant
            i <= items@.len(),
            rows@.len() == 2 * i,
            forall|row: int|
                0 <= row < 2 * i ==> (#[trigger] rows@[row])@ == list_rows(
                    items@,
                    current_time as int,
                )[row],
        decreases items@.len() - i,
    {
        let item = post_item(items[i].0, &items[i].1, current_time);
        rows.push(item.top_item);
        rows.push(item.bottom_item);
        i = i + 1;
    }
    assert(rows_view(rows@) =~= list_rows(items@, current_time as int));
    rows
}

/// The rows of a list are as many as its records take by `rows_per_item`, and
/// the rows of the record at index `i` begin at row `i * ROWS_PER_ITEM`: so a
/// selection that moves by `ROWS_PER_ITEM` stands on title rows, and the row
/// divided by `ROWS_PER_ITEM` is the index of the record.
pub proof fn lemma_rows_per_record(items: Seq<(usize, Post)>, current_time: int, i: int)
    requires
        0 <= i < items.len(),
    ensures
        forall|kind: PostKind| spec_rows_per_item(kind) == ROWS_PER_ITEM,
        list_rows(items, current_time).len() == ROWS_PER_ITEM * items.len(),
        list_rows(items, current_time)[i * ROWS_PER_ITEM] == top_row(
            items[i].0 as nat,
            items[i].1,
        ),
        list_rows(items, current_time)[i * ROWS_PER_ITEM + 1] == bottom_row(
            items[i].0 as nat,
            items[i].1,
            current_time,
        ),
        (i * ROWS_PER_ITEM) / (ROWS_PER_ITEM as int) == i,
{
}

} // verus!
