use hntui::cursor::StatefulList;

fn rows(count: usize) -> Vec<u32> {
    let mut rows = Vec::new();
    for i in 0..count {
        rows.push(i as u32);
    }
    rows
}

fn at(list: &mut StatefulList<u32>, row: usize) {
    while list.selected() != Some(row) {
        list.next();
    }
}

#[test]
fn three_moves_down_from_nothing_select_rows_0_2_4() {
    let mut list = StatefulList::new(rows(10), false);
    assert_eq!(list.selected(), None);
    list.next();
    assert_eq!(list.selected(), Some(0));
    list.next();
    assert_eq!(list.selected(), Some(2));
    list.next();
    assert_eq!(list.selected(), Some(4));
}

#[test]
fn down_from_the_last_item_wraps_to_the_first_row() {
    let mut list = StatefulList::new(rows(10), false);
    assert!(list.wrap_past_end());
    at(&mut list, 8);
    list.next();
    assert_eq!(list.selected(), Some(0));
}

#[test]
fn down_from_the_last_item_goes_past_the_list_where_that_is_allowed() {
    let mut list = StatefulList::new(rows(10), true);
    assert!(!list.wrap_past_end());
    at(&mut list, 8);
    list.next();
    assert_eq!(list.selected(), Some(10));
    assert_eq!(list.selected_item(), None);
    list.next();
    assert_eq!(list.selected(), Some(0));
}

#[test]
fn a_full_round_down_visits_each_first_row_once() {
    let mut list = StatefulList::new(rows(10), false);
    let mut seen = Vec::new();
    for _ in 0..6 {
        list.next();
        seen.push(list.selected());
    }
    assert_eq!(seen, vec![Some(0), Some(2), Some(4), Some(6), Some(8), Some(0)]);
}

#[test]
fn moves_in_an_empty_list_select_nothing() {
    let mut list: StatefulList<u32> = StatefulList::new(Vec::new(), false);
    list.next();
    assert_eq!(list.selected(), None);
    list.previous();
    assert_eq!(list.selected(), None);
    let mut list: StatefulList<u32> = StatefulList::new(Vec::new(), true);
    list.next();
    assert_eq!(list.selected(), None);
    list.previous();
    assert_eq!(list.selected(), None);
    assert_eq!(list.selected_item(), None);
}

#[test]
fn up_from_nothing_selects_the_first_row() {
    let mut list = StatefulList::new(rows(10), false);
    list.previous();
    assert_eq!(list.selected(), Some(0));
}

#[test]
fn up_from_the_first_row_wraps_to_the_last_item() {
    let mut list = StatefulList::new(rows(10), false);
    list.next();
    list.previous();
    assert_eq!(list.selected(), Some(8));
    list.previous();
    assert_eq!(list.selected(), Some(6));
}

#[test]
fn up_from_the_first_row_goes_past_the_list_where_that_is_allowed() {
    let mut list = StatefulList::new(rows(10), true);
    list.next();
    list.previous();
    assert_eq!(list.selected(), Some(10));
    list.previous();
    assert_eq!(list.selected(), Some(8));
}

#[test]
fn up_undoes_down_and_down_undoes_up() {
    for scroll in [false, true] {
        let mut list = StatefulList::new(rows(10), scroll);
        list.next();
        for _ in 0..7 {
            let before = list.selected();
            list.next();
            list.previous();
            assert_eq!(list.selected(), before);
            list.previous();
            list.next();
            assert_eq!(list.selected(), before);
            list.next();
        }
    }
}

#[test]
fn the_selected_item_is_the_row_divided_by_the_rows_of_an_item() {
    let mut list = StatefulList::new(rows(10), false);
    assert_eq!(list.selected_item(), None);
    list.next();
    assert_eq!(list.selected_item(), Some(0));
    at(&mut list, 6);
    assert_eq!(list.selected_item(), Some(3));
    at(&mut list, 8);
    assert_eq!(list.selected_item(), Some(4));
}

#[test]
fn a_list_of_single_rows_moves_by_one() {
    let mut list = StatefulList::with_step(rows(3), 1, false);
    assert_eq!(list.step(), 1);
    list.next();
    list.next();
    assert_eq!(list.selected(), Some(1));
    assert_eq!(list.selected_item(), Some(1));
    list.next();
    assert_eq!(list.selected(), Some(2));
    list.next();
    assert_eq!(list.selected(), Some(0));
    list.previous();
    assert_eq!(list.selected(), Some(2));
}

#[test]
fn a_list_of_one_item_stays_on_it() {
    let mut list = StatefulList::new(rows(2), false);
    list.next();
    assert_eq!(list.selected(), Some(0));
    list.next();
    assert_eq!(list.selected(), Some(0));
    list.previous();
    assert_eq!(list.selected(), Some(0));
}

#[test]
fn a_row_left_over_belongs_to_no_item() {
    let mut list = StatefulList::new(rows(5), false);
    list.next();
    list.next();
    assert_eq!(list.selected(), Some(2));
    list.next();
    assert_eq!(list.selected(), Some(0));
    list.previous();
    assert_eq!(list.selected(), Some(2));
    let mut list = StatefulList::new(rows(1), false);
    list.next();
    assert_eq!(list.selected(), None);
}

#[test]
fn a_shorter_list_pulls_the_selection_back_to_its_last_stop() {
    let mut list = StatefulList::new(rows(10), false);
    at(&mut list, 8);
    list.set_items(rows(4));
    assert_eq!(list.selected(), Some(2));
    assert_eq!(list.items().len(), 4);
    let mut list = StatefulList::new(rows(10), true);
    at(&mut list, 10);
    list.set_items(rows(4));
    assert_eq!(list.selected(), Some(4));
}

#[test]
fn a_list_that_still_has_the_row_keeps_the_selection() {
    let mut list = StatefulList::new(rows(10), false);
    at(&mut list, 2);
    list.set_items(rows(6));
    assert_eq!(list.selected(), Some(2));
    list.set_items(rows(20));
    assert_eq!(list.selected(), Some(2));
}

#[test]
fn an_empty_list_drops_the_selection() {
    let mut list = StatefulList::new(rows(10), true);
    at(&mut list, 4);
    list.set_items(Vec::new());
    assert_eq!(list.selected(), None);
    list.next();
    assert_eq!(list.selected(), None);
}

#[test]
fn a_new_list_keeps_what_it_was_made_with() {
    let list = StatefulList::new(rows(4), true);
    assert_eq!(list.items(), &rows(4));
    assert_eq!(list.step(), 2);
    assert!(list.scroll_past_list());
    assert_eq!(list.selected(), None);
}
