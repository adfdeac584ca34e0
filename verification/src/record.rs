//! The records that the remote source returns, as plain data.
//!
//! A creation time is held as a Unix timestamp in whole seconds, the form in
//! which the source sends it.

use vstd::prelude::*;

verus! {

/// The kind of a record.
#[derive(Copy, Clone, Debug, PartialEq, Eq, Structural)]
pub enum PostKind {
    Job,
    Story,
    Comment,
    Poll,
    PollOpt,
}

/// One choice of a poll.
#[derive(Clone, Debug, PartialEq, Eq)]
pub struct PollOpt {
    pub id: u32,
    pub deleted: bool,
    pub by: String,
    pub time: i64,
    pub dead: bool,
    pub kids: Vec<u32>,
    pub parent: u32,
    pub score: u32,
}

/// A poll; `parts` are the ids of its choices.
#[derive(Clone, Debug, PartialEq, Eq)]
pub struct Poll {
    pub id: u32,
    pub deleted: bool,
    pub by: String,
    pub time: i64,
    pub dead: bool,
    pub kids: Vec<u32>,
    pub parts: Vec<u32>,
    pub descendants: u32,
    pub score: u32,
    pub title: String,
    pub text: String,
}

/// A comment on a story, a poll or another comment.
#[derive(Clone, Debug, PartialEq, Eq)]
pub struct Comment {
    pub id: u32,
    pub deleted: bool,
    pub by: String,
    pub time: i64,
    pub dead: bool,
    pub kids: Vec<u32>,
    pub parent: u32,
    pub text: String,
}

/// A job posting.
#[derive(Clone, Debug, PartialEq, Eq)]
pub struct Job {
    pub id: u32,
    pub deleted: bool,
    pub by: String,
    pub time: i64,
    pub dead: bool,
    pub kids: Vec<u32>,
    pub text: String,
    pub url: String,
    pub title: String,
}

/// A story.
#[derive(Clone, Debug, PartialEq, Eq)]
pub struct Story {
    pub id: u32,
    pub deleted: bool,
    pub by: String,
    pub time: i64,
    pub dead: bool,
    pub kids: Vec<u32>,
    pub descendants: u32,
    pub score: u32,
    pub title: String,
    pub url: String,
}

/// One fetched record, of one of five kinds.
#[derive(Clone, Debug, PartialEq, Eq)]
pub enum Post {
    Job(Job),
    Story(Story),
    Comment(Comment),
    Poll(Poll),
    PollOpt(PollOpt),
}

/// The changes that the source reports: changed items and changed profiles.
#[derive(Clone, Debug, PartialEq, Eq)]
pub struct Updates {
    pub items: Vec<u32>,
    pub profiles: Vec<String>,
}

/// A user profile.
#[derive(Clone, Debug, PartialEq, Eq)]
pub struct User {
    pub id: String,
    pub created: i64,
    pub karma: u32,
    pub about: String,
    pub submitted: Vec<u32>,
}

/// Calls `time::OffsetDateTime::now_utc` and `OffsetDateTime::unix_timestamp`
/// on what it gives: the time of the call, as a Unix timestamp.
///
/// Nothing is claimed of the result, which depends on the clock. The call
/// panics where the clock stands outside the years that `time` can hold.
#[verifier::external_body]
fn now_utc_timestamp() -> (now: i64) {
    time::OffsetDateTime::now_utc().unix_timestamp()
}

impl Default for User {
    /// A profile with no name and nothing in it, created now.
    fn default() -> (user: User)
        ensures
            user.id@ == Seq::<char>::empty(),
            user.karma == 0,
            user.about@ == Seq::<char>::empty(),
            user.submitted@ == Seq::<u32>::empty(),
    {
        User {
            id: String::new(),
            created: now_utc_timestamp(),
            karma: 0,
            about: String::new(),
            submitted: Vec::new(),
        }
    }
}

/// The display rows of one record: a title row and a row of metadata.
pub const ROWS_PER_ITEM: usize = 2;

/// How many display rows one record of the given kind takes: a title row and a
/// row of metadata, for every kind.
pub open spec fn spec_rows_per_item(kind: PostKind) -> usize {
    ROWS_PER_ITEM
}

/// How many display rows one record of the given kind takes. The renderer and
/// the selection both go by this number.
#[verifier::when_used_as_spec(spec_rows_per_item)]
pub fn rows_per_item(kind: PostKind) -> (rows: usize)
    ensures
        rows == spec_rows_per_item(kind),
        rows == 1 || rows == 2,
{
    match kind {
        PostKind::Job => ROWS_PER_ITEM,
        PostKind::Story => ROWS_PER_ITEM,
        PostKind::Comment => ROWS_PER_ITEM,
        PostKind::Poll => ROWS_PER_ITEM,
        PostKind::PollOpt => ROWS_PER_ITEM,
    }
}

impl Post {
    pub open spec fn spec_kind(&self) -> PostKind {
        match self {
            Post::Job(_) => PostKind::Job,
            Post::Story(_) => PostKind::Story,
            Post::Comment(_) => PostKind::Comment,
            Post::Poll(_) => PostKind::Poll,
            Post::PollOpt(_) => PostKind::PollOpt,
        }
    }

    pub open spec fn spec_id(&self) -> u32 {
        match self {
            Post::Job(job) => job.id,
            Post::Story(story) => story.id,
            Post::Comment(comment) => comment.id,
            Post::Poll(poll) => poll.id,
            Post::PollOpt(poll_opt) => poll_opt.id,
        }
    }

    pub open spec fn spec_time(&self) -> i64 {
        match self {
            Post::Job(job) => job.time,
            Post::Story(story) => story.time,
            Post::Comment(comment) => comment.time,
            Post::Poll(poll) => poll.time,
            Post::PollOpt(poll_opt) => poll_opt.time,
        }
    }

    /// The kind of the record.
    #[verifier::when_used_as_spec(spec_kind)]
    pub fn kind(&self) -> (kind: PostKind)
        ensures
            kind == self.spec_kind(),
    {
        match self {
            Post::Job(_) => PostKind::Job,
            Post::Story(_) => PostKind::Story,
            Post::Comment(_) => PostKind::Comment,
            Post::Poll(_) => PostKind::Poll,
            Post::PollOpt(_) => PostKind::PollOpt,
        }
    }

    /// The id under which the source holds the record.
    #[verifier::when_used_as_spec(spec_id)]
    pub fn id(&self) -> (id: u32)
        ensures
            id == self.spec_id(),
    {
        match self {
            Post::Job(job) => job.id,
            Post::Story(story) => story.id,
            Post::Comment(comment) => comment.id,
            Post::Poll(poll) => poll.id,
            Post::PollOpt(poll_opt) => poll_opt.id,
        }
    }

    /// When the record was created, as a Unix timestamp.
    #[verifier::when_used_as_spec(spec_time)]
    pub fn time(&self) -> (time: i64)
        ensures
            time == self.spec_time(),
    {
        match self {
            Post::Job(job) => job.time,
            Post::Story(story) => story.time,
            Post::Comment(comment) => comment.time,
            Post::Poll(poll) => poll.time,
            Post::PollOpt(poll_opt) => poll_opt.time,
        }
    }
}

} // verus!
