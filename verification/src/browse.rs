//! What to open for the selected record.

use vstd::prelude::*;
use crate::record::Post;
use crate::text::{decimal, decimal_string};

verus! {

/// The address of the page that shows a record with its comments.
pub open spec fn comments_url(id: u32) -> Seq<char> {
    "https://news.ycombinator.com/item?id="@ + decimal(id as nat)
}

/// The page of comments of a record: stories and jobs have one.
pub open spec fn comments_link(post: Post) -> Option<Seq<char>> {
    match post {
        Post::Job(job) => Some(comments_url(job.id)),
        Post::Story(story) => Some(comments_url(story.id)),
        _ => None,
    }
}

/// The article that a record links to: the link of a story or a job.
pub open spec fn article_link(post: Post) -> Option<Seq<char>> {
    match post {
        Post::Job(job) => Some(job.url@),
        Post::Story(story) => Some(story.url@),
        _ => None,
    }
}

/// The record of the item with the given index, counted from 0.
pub open spec fn post_of(items: Seq<(usize, Post)>, item: Option<usize>) -> Option<Post> {
    match item {
        Some(index) => if index < items.len() {
            Some(items[index as int].1)
        } else {
            None
        },
        None => None,
    }
}

/// The text of an address, as contracts see it.
pub open spec fn address_view(address: Option<String>) -> Option<Seq<char>> {
    match address {
        Some(text) => Some(text@),
        None => None,
    }
}

/// The record as contracts see it.
pub open spec fn post_view(post: Option<&Post>) -> Option<Post> {
    match post {
        Some(post) => Some(*post),
        None => None,
    }
}

fn comments_address(id: u32) -> (address: String)
    ensures
        address@ == comments_url(id),
{
    let mut address = String::from_str("https://news.ycombinator.com/item?id=");
    address.append(decimal_string(id as u64).as_str());
    address
}

/// The address to open for the comments of a record, if it has a page of
/// comments.
pub fn comments_target(post: &Post) -> (address: Option<String>)
    ensures
        address_view(address) == comments_link(*post),
{
    match post {
        Post::Job(job) => Some(comments_address(job.id)),
        Post::Story(story) => Some(comments_address(story.id)),
        _ => None,
    }
}

/// The address to open for the article of a record, if it links to one.
pub fn article_target(post: &Post) -> (address: Option<String>)
    ensures
        address_view(address) == article_link(*post),
{
    match post {
        Post::Job(job) => Some(job.url.clone()),
        Post::Story(story) => Some(story.url.clone()),
        _ => None,
    }
}

/// The record of the selected item, where an item is selected and the list
/// holds it.
pub fn selected_post(items: &Vec<(usize, Post)>, item: Option<usize>) -> (post: Option<&Post>)
    ensures
        post_view(post) == post_of(items@, item),
{
    match item {
        Some(index) => {
            if index < items.len() {
                Some(&items[index].1)
            } else {
                None
            }
        },
        None => None,
    }
}

} // verus!
