use hntui::collect::{collect, construct_items, Batch, CollectError, FetchFailure};
use std::cell::RefCell;
use hntui::record::{Post, Story};

fn story(id: u32) -> Post {
    Post::Story(Story {
        id,
        deleted: false,
        by: format!("author{}", id),
        time: 1_600_000_000,
        dead: false,
        kids: vec![id + 1, id + 2],
        descendants: 2,
        score: 10,
        title: format!("title {}", id),
        url: format!("https://example.com/{}", id),
    })
}

fn expected(ids: &[u32]) -> Vec<(usize, Post)> {
    let mut list = Vec::new();
    for (i, id) in ids.iter().enumerate() {
        list.push((i + 1, story(*id)));
    }
    list
}

fn positions(list: &[(usize, Post)]) -> Vec<usize> {
    list.iter().map(|item| item.0).collect()
}

#[test]
fn completions_in_the_order_of_the_request_give_the_list() {
    let ids = vec![30, 10, 20];
    let completions = vec![(1, Ok(story(30))), (2, Ok(story(10))), (3, Ok(story(20)))];
    let list = construct_items(ids.clone(), completions).unwrap();
    assert_eq!(positions(&list), vec![1, 2, 3]);
    assert_eq!(list, expected(&ids));
}

#[test]
fn completions_in_reverse_give_the_same_list() {
    let ids = vec![30, 10, 20, 40, 50];
    let mut completions = Vec::new();
    for (i, id) in ids.iter().enumerate() {
        completions.push((i + 1, Ok(story(*id))));
    }
    let forward = construct_items(ids.clone(), completions.clone()).unwrap();
    completions.reverse();
    let backward = construct_items(ids.clone(), completions).unwrap();
    assert_eq!(backward, forward);
    assert_eq!(backward, expected(&ids));
}

#[test]
fn completions_in_any_order_give_positions_without_gap() {
    let ids = vec![7, 3, 9, 1, 5, 8];
    let order = [4, 1, 6, 2, 5, 3];
    let mut completions = Vec::new();
    for pos in order {
        completions.push((pos, Ok(story(ids[pos - 1]))));
    }
    let list = construct_items(ids.clone(), completions).unwrap();
    assert_eq!(positions(&list), vec![1, 2, 3, 4, 5, 6]);
    assert_eq!(list, expected(&ids));
}

#[test]
fn no_ids_give_an_empty_list_and_no_request() {
    let batch = Batch::new(Vec::new());
    assert!(batch.requests().is_empty());
    assert_eq!(batch.concurrency(), 0);
    assert!(batch.is_complete());
    assert_eq!(batch.finish(), Ok(Vec::new()));
    assert_eq!(construct_items(Vec::new(), Vec::new()), Ok(Vec::new()));
}

#[test]
fn a_completion_for_a_batch_of_no_ids_is_refused() {
    let mut batch = Batch::new(Vec::new());
    assert!(!batch.accept(1, Ok(story(1))));
    assert!(!batch.accept(0, Ok(story(1))));
    assert_eq!(batch.finish(), Ok(Vec::new()));
    assert_eq!(construct_items(Vec::new(), vec![(1, Ok(story(1)))]), Ok(Vec::new()));
}

#[test]
fn one_failed_fetch_fails_the_batch() {
    let ids = vec![30, 10, 20];
    let completions =
        vec![(3, Ok(story(20))), (2, Err(FetchFailure { id: 10 })), (1, Ok(story(30)))];
    assert_eq!(construct_items(ids, completions), Err(CollectError::PartialFailure(vec![10])));
}

#[test]
fn the_failed_ids_come_in_the_order_of_the_request() {
    let ids = vec![30, 10, 20, 40];
    let completions = vec![
        (4, Err(FetchFailure { id: 40 })),
        (2, Ok(story(10))),
        (1, Err(FetchFailure { id: 30 })),
        (3, Err(FetchFailure { id: 20 })),
    ];
    assert_eq!(
        construct_items(ids, completions),
        Err(CollectError::PartialFailure(vec![30, 20, 40]))
    );
}

#[test]
fn a_batch_gives_nothing_before_every_fetch_is_back() {
    let mut batch = Batch::new(vec![30, 10, 20]);
    assert!(!batch.is_complete());
    assert!(batch.accept(2, Ok(story(10))));
    assert!(batch.accept(1, Ok(story(30))));
    assert!(!batch.is_complete());
    assert_eq!(batch.finish(), Err(CollectError::Incomplete));
    let completions = vec![(1, Ok(story(30))), (3, Err(FetchFailure { id: 20 }))];
    assert_eq!(construct_items(vec![30, 10, 20], completions), Err(CollectError::Incomplete));
}

#[test]
fn a_position_is_taken_once() {
    let mut batch = Batch::new(vec![30, 10]);
    assert!(!batch.has_seen(1));
    assert!(batch.accept(1, Ok(story(30))));
    assert!(batch.has_seen(1));
    assert!(!batch.accept(1, Ok(story(99))));
    assert!(!batch.accept(1, Err(FetchFailure { id: 30 })));
    assert!(batch.accept(2, Err(FetchFailure { id: 10 })));
    assert!(!batch.accept(2, Ok(story(10))));
    assert!(batch.is_complete());
    assert_eq!(batch.finish(), Err(CollectError::PartialFailure(vec![10])));
}

#[test]
fn the_first_completion_of_a_position_counts() {
    let completions = vec![(1, Ok(story(30))), (1, Ok(story(99))), (2, Ok(story(10)))];
    assert_eq!(construct_items(vec![30, 10], completions), Ok(expected(&[30, 10])));
}

#[test]
fn a_position_outside_the_batch_is_refused() {
    let mut batch = Batch::new(vec![30, 10]);
    assert!(!batch.accept(0, Ok(story(30))));
    assert!(!batch.accept(3, Ok(story(30))));
    assert!(!batch.accept(usize::MAX, Ok(story(30))));
    assert!(!batch.is_complete());
    assert!(batch.accept(2, Ok(story(10))));
    assert!(batch.accept(1, Ok(story(30))));
    assert_eq!(batch.finish(), Ok(expected(&[30, 10])));
}

#[test]
fn requests_carry_positions_counted_from_one() {
    let batch = Batch::new(vec![30, 10, 20]);
    assert_eq!(batch.requests(), vec![(1, 30), (2, 10), (3, 20)]);
    assert_eq!(batch.concurrency(), 3);
}

#[test]
fn a_batch_asks_for_no_more_than_the_limit() {
    let batch = Batch::with_limit(vec![30, 10, 20, 40], 2);
    assert_eq!(batch.requests(), vec![(1, 30), (2, 10)]);
    assert_eq!(batch.concurrency(), 2);
    let batch = Batch::with_limit(vec![30, 10], 5);
    assert_eq!(batch.requests(), vec![(1, 30), (2, 10)]);
    let batch = Batch::with_limit(vec![30, 10], 2);
    assert_eq!(batch.concurrency(), 2);
    let batch = Batch::with_limit(vec![30, 10], 0);
    assert!(batch.requests().is_empty());
}

#[test]
fn the_same_id_twice_is_fetched_twice() {
    let ids = vec![5, 5];
    let completions = vec![(2, Ok(story(5))), (1, Ok(story(5)))];
    assert_eq!(construct_items(ids, completions), Ok(vec![(1, story(5)), (2, story(5))]));
}

#[test]
fn a_long_batch_comes_out_in_order() {
    let count = 500usize;
    let ids: Vec<u32> = (0..count as u32).map(|i| 1000 + i).collect();
    let mut completions = Vec::new();
    for k in 0..count {
        let pos = (k * 7) % count + 1;
        completions.push((pos, Ok(story(ids[pos - 1]))));
    }
    let list = construct_items(ids.clone(), completions).unwrap();
    assert_eq!(list.len(), count);
    for (i, item) in list.iter().enumerate() {
        assert_eq!(item.0, i + 1);
        assert_eq!(item.1, story(ids[i]));
    }
}

#[test]
fn collecting_with_a_fetch_gives_each_id_its_record() {
    let ids = vec![30, 10, 20];
    let list = collect(ids.clone(), |id| Ok(story(id))).unwrap();
    assert_eq!(positions(&list), vec![1, 2, 3]);
    assert_eq!(list, expected(&ids));
}

#[test]
fn collecting_no_ids_does_not_fetch() {
    let asked: RefCell<Vec<u32>> = RefCell::new(Vec::new());
    let result = collect(Vec::new(), |id| {
        asked.borrow_mut().push(id);
        Err(FetchFailure { id })
    });
    assert_eq!(result, Ok(Vec::new()));
    assert!(asked.borrow().is_empty());
}

#[test]
fn collecting_fetches_each_id_once() {
    let asked: RefCell<Vec<u32>> = RefCell::new(Vec::new());
    let ids = vec![4, 8, 15, 16, 23, 42];
    let result = collect(ids.clone(), |id| {
        asked.borrow_mut().push(id);
        Ok(story(id))
    });
    assert_eq!(result, Ok(expected(&ids)));
    let mut fetched = asked.borrow().clone();
    fetched.sort();
    assert_eq!(fetched, ids);
}

#[test]
fn collecting_fails_where_a_fetch_fails() {
    let ids = vec![30, 10, 20, 40];
    let result =
        collect(ids, |id| if id == 10 || id == 40 { Err(FetchFailure { id }) } else { Ok(story(id)) });
    assert_eq!(result, Err(CollectError::PartialFailure(vec![10, 40])));
    let result = collect(vec![1], |id| Err(FetchFailure { id }));
    assert_eq!(result, Err(CollectError::PartialFailure(vec![1])));
}
