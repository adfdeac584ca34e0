use hntui::menu::MenuItem;

#[test]
fn scrolling_switches_between_the_two_tabs() {
    let mut tab = MenuItem::Top;
    tab.scroll();
    assert_eq!(tab, MenuItem::New);
    tab.scroll();
    assert_eq!(tab, MenuItem::Top);
}

#[test]
fn scrolling_twice_comes_back() {
    for start in [MenuItem::Top, MenuItem::New] {
        let mut tab = start;
        tab.scroll();
        assert_ne!(tab, start);
        tab.scroll();
        assert_eq!(tab, start);
    }
}

#[test]
fn the_tabs_stand_in_the_order_top_new() {
    assert_eq!(MenuItem::Top.index(), 0);
    assert_eq!(MenuItem::New.index(), 1);
    assert_eq!(usize::from(MenuItem::Top), 0);
    assert_eq!(usize::from(MenuItem::New), 1);
    let index: usize = MenuItem::New.into();
    assert_eq!(index, 1);
}
