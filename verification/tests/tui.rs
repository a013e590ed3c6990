use deribit::tui::{
    admits, filter_indices, is_arb, order_by_time, truncate, Filter, Key, KeyEffect, KeyIndex,
    Navigation, Screen, Slot, SortBy,
};

#[test]
fn arbitrage_strategies() {
    for s in ["put_call_parity", "box_spread", "conversion", "reversal", "vertical_arb", "butterfly_arb", "calendar_arb"] {
        assert!(is_arb(s), "{}", s);
    }
    for s in ["vol_surface_anomaly", "butterfly_spread", "calendar_spread", "portfolio", ""] {
        assert!(!is_arb(s), "{}", s);
    }
}

#[test]
fn filters_select_rows() {
    let s: Vec<String> = ["box_spread", "calendar_spread", "vertical_arb", "portfolio"]
        .iter()
        .map(|x| x.to_string())
        .collect();
    assert_eq!(filter_indices(&s, Filter::All), vec![0, 1, 2, 3]);
    assert_eq!(filter_indices(&s, Filter::Arbitrage), vec![0, 2]);
    assert_eq!(filter_indices(&s, Filter::Signal), vec![1, 3]);
    assert_eq!(filter_indices(&s, Filter::Spread), vec![0, 2]);
    assert_eq!(filter_indices(&s, Filter::Calendar), vec![1]);
    assert_eq!(filter_indices(&s, Filter::Portfolio), vec![3]);
    assert_eq!(filter_indices(&s, Filter::Pcp), Vec::<usize>::new());
}

#[test]
fn strategy_tabs() {
    assert!(admits(Filter::Pcp, "put_call_parity"));
    assert!(!admits(Filter::Pcp, "box_spread"));
    for s in ["box_spread", "vertical_arb", "butterfly_arb"] {
        assert!(admits(Filter::Spread, s), "{}", s);
    }
    assert!(!admits(Filter::Spread, "butterfly_spread"));
    assert!(admits(Filter::Conv, "conversion"));
    assert!(admits(Filter::Conv, "reversal"));
    assert!(admits(Filter::Calendar, "calendar_arb"));
    assert!(admits(Filter::Calendar, "calendar_spread"));
    assert!(admits(Filter::Vol, "vol_surface_anomaly"));
    assert!(admits(Filter::Vol, "butterfly_spread"));
    assert!(!admits(Filter::Vol, "butterfly_arb"));
    assert!(admits(Filter::Portfolio, "portfolio"));
    assert!(!admits(Filter::Portfolio, "portfolios"));
}

#[test]
fn newest_first_with_stable_ties() {
    let times = [10i64, 30, 20, 30, 5];
    assert_eq!(order_by_time(&[0, 1, 2, 3, 4], &times), vec![1, 3, 2, 0, 4]);
    assert_eq!(order_by_time(&[0, 3, 4], &times), vec![3, 0, 4]);
}

#[test]
fn truncate_marks_cut() {
    assert_eq!(truncate("abcdef", 4), "abc\u{2026}");
    assert_eq!(truncate("abcd", 4), "abcd");
    assert_eq!(truncate("", 0), "");
    assert_eq!(truncate("ééééé", 3).chars().count(), 3);
}

#[test]
fn navigation_moves_within_list() {
    let mut n = Navigation::new();
    assert_eq!(n.handle_key(Key::Down, 3), KeyEffect::Done);
    assert_eq!(n.selected, Some(1));
    n.handle_key(Key::Char('j'), 3);
    assert_eq!(n.selected, Some(2));
    n.handle_key(Key::Down, 3);
    assert_eq!(n.selected, Some(2));
    n.handle_key(Key::Up, 3);
    n.handle_key(Key::Char('k'), 3);
    n.handle_key(Key::Up, 3);
    assert_eq!(n.selected, Some(0));
}

#[test]
fn navigation_on_empty_list() {
    let mut n = Navigation::new();
    n.handle_key(Key::Down, 0);
    n.handle_key(Key::Up, 0);
    assert_eq!(n.selected, None);
    n.handle_key(Key::Enter, 0);
    assert_eq!(n.view, Screen::List);
}

#[test]
fn detail_view_and_back() {
    let mut n = Navigation::new();
    n.on_added(2);
    assert_eq!(n.selected, Some(0));
    n.handle_key(Key::Enter, 2);
    assert_eq!(n.view, Screen::Detail);
    n.handle_key(Key::Down, 2);
    assert_eq!(n.selected, Some(0));
    n.handle_key(Key::Esc, 2);
    assert_eq!(n.view, Screen::List);
    n.handle_key(Key::Enter, 2);
    n.handle_key(Key::Backspace, 2);
    assert_eq!(n.view, Screen::List);
}

#[test]
fn filter_keys_refilter_and_reselect() {
    let mut n = Navigation::new();
    assert_eq!(n.handle_key(Key::Char('2'), 5), KeyEffect::RefilterAndReselect);
    assert_eq!(n.filter, Filter::Arbitrage);
    n.reselect(0);
    assert_eq!(n.selected, None);
    assert_eq!(n.handle_key(Key::Char('3'), 0), KeyEffect::RefilterAndReselect);
    assert_eq!(n.filter, Filter::Signal);
    n.reselect(4);
    assert_eq!(n.selected, Some(0));
    assert_eq!(n.handle_key(Key::Char('1'), 4), KeyEffect::RefilterAndReselect);
    assert_eq!(n.filter, Filter::All);
    let tabs = [
        ('4', Filter::Pcp),
        ('5', Filter::Spread),
        ('6', Filter::Conv),
        ('7', Filter::Calendar),
        ('8', Filter::Vol),
        ('9', Filter::Portfolio),
    ];
    for (c, f) in tabs {
        assert_eq!(n.handle_key(Key::Char(c), 4), KeyEffect::RefilterAndReselect);
        assert_eq!(n.filter, f);
    }
    assert_eq!(n.handle_key(Key::Char('0'), 4), KeyEffect::Done);
    assert_eq!(n.filter, Filter::Portfolio);
}

#[test]
fn sort_key_cycles() {
    let mut n = Navigation::new();
    assert_eq!(n.handle_key(Key::Char('s'), 1), KeyEffect::Refilter);
    assert_eq!(n.sort_by, SortBy::Time);
    n.handle_key(Key::Char('s'), 1);
    assert_eq!(n.sort_by, SortBy::Apy);
    n.handle_key(Key::Char('s'), 1);
    assert_eq!(n.sort_by, SortBy::Profit);
}

#[test]
fn leverage_key_cycles() {
    let mut n = Navigation::new();
    assert_eq!(n.leverage, 1);
    let mut seen = Vec::new();
    for _ in 0..4 {
        assert_eq!(n.handle_key(Key::Char('l'), 1), KeyEffect::Refilter);
        seen.push(n.leverage);
    }
    assert_eq!(seen, vec![2, 5, 10, 1]);
    n.leverage = 3;
    n.handle_key(Key::Char('l'), 1);
    assert_eq!(n.leverage, 1);
    n.view = Screen::Detail;
    assert_eq!(n.handle_key(Key::Char('l'), 1), KeyEffect::Done);
    assert_eq!(n.leverage, 1);
}

#[test]
fn moving_keeps_tab_and_order() {
    let mut n = Navigation::new();
    n.handle_key(Key::Char('5'), 3);
    n.handle_key(Key::Char('s'), 3);
    for k in [Key::Down, Key::Char('j'), Key::Up, Key::Char('k'), Key::Enter, Key::Esc] {
        assert_eq!(n.handle_key(k, 3), KeyEffect::Done);
        assert_eq!(n.filter, Filter::Spread);
        assert_eq!(n.sort_by, SortBy::Time);
    }
}

#[test]
fn quit_keys() {
    let mut n = Navigation::new();
    n.handle_key(Key::Char('x'), 1);
    assert!(!n.should_quit);
    n.handle_key(Key::Char('q'), 1);
    assert!(n.should_quit);
    let mut n = Navigation::new();
    n.view = Screen::Detail;
    n.handle_key(Key::Interrupt, 1);
    assert!(n.should_quit);
    let mut n = Navigation::new();
    n.view = Screen::Detail;
    n.handle_key(Key::Char('q'), 1);
    assert!(n.should_quit);
}

#[test]
fn same_key_replaces_its_row() {
    let mut ix = KeyIndex::new();
    assert_eq!(ix.len(), 0);
    assert_eq!(ix.slot_for("box_spread:A,B".to_string()), Slot::Added(0));
    assert_eq!(ix.slot_for("put_call_parity:A,B".to_string()), Slot::Added(1));
    assert_eq!(ix.slot_for("box_spread:A,B".to_string()), Slot::Existing(0));
    assert_eq!(ix.slot_for("put_call_parity:A,B".to_string()), Slot::Existing(1));
    assert_eq!(ix.slot_for("box_spread:A,C".to_string()), Slot::Added(2));
    assert_eq!(ix.len(), 3);
}
