use options_scanner::tui::app::{App, KeyAction, KeyCode, KeyPress, Screen, NUM_STRATEGIES};

fn key(code: KeyCode) -> KeyPress {
    KeyPress { code, control: false }
}

#[test]
fn new_app_starts_on_dashboard() {
    let app: App<u32> = App::new();
    assert_eq!(app.current_view, Screen::Dashboard);
    assert!(app.opportunities.is_empty());
    assert_eq!(app.status_message, "Ready. Press 's' to scan or 'q' to quit.");
    assert!(!app.should_quit && !app.scan_in_progress);
}

#[test]
fn views_cycle_both_ways() {
    let mut app: App<u32> = App::new();
    let order = [Screen::StrategyList, Screen::Detail, Screen::Settings, Screen::Dashboard];
    for v in order {
        app.next_view();
        assert_eq!(app.current_view, v);
    }
    app.prev_view();
    assert_eq!(app.current_view, Screen::Settings);
    app.next_view();
    assert_eq!(app.current_view, Screen::Dashboard);
}

#[test]
fn strategy_selection_is_bounded() {
    let mut app: App<u32> = App::new();
    app.current_view = Screen::StrategyList;
    for _ in 0..20 {
        app.select_next();
    }
    assert_eq!(app.selected_strategy, NUM_STRATEGIES - 1);
    app.select_prev();
    assert_eq!(app.selected_strategy, NUM_STRATEGIES - 2);
    for _ in 0..20 {
        app.select_prev();
    }
    assert_eq!(app.selected_strategy, 0);
}

#[test]
fn opportunity_selection_is_bounded() {
    let mut app: App<u32> = App::new();
    app.current_view = Screen::Detail;
    app.select_next();
    assert_eq!(app.selected_opportunity, 0);
    app.finish_scan(vec![1, 2, 3]);
    for _ in 0..5 {
        app.select_next();
    }
    assert_eq!(app.selected_opportunity, 2);
    app.current_view = Screen::Dashboard;
    app.select_prev();
    assert_eq!(app.selected_opportunity, 2);
}

#[test]
fn scan_key_starts_one_scan() {
    let mut app: App<u32> = App::new();
    assert_eq!(app.handle_key(key(KeyCode::Char('s')), 503), KeyAction::StartScan);
    assert!(app.scan_in_progress);
    assert_eq!(app.status_message, "Scanning 503 tickers...");
    assert_eq!(app.handle_key(key(KeyCode::Char('s')), 503), KeyAction::Nothing);
    app.finish_scan(vec![7; 12]);
    assert!(!app.scan_in_progress);
    assert_eq!(app.status_message, "Found 12 opportunities. Press 's' to rescan.");
    assert_eq!(app.handle_key(key(KeyCode::Char('s')), 0), KeyAction::StartScan);
    assert_eq!(app.status_message, "Scanning 0 tickers...");
}

#[test]
fn quit_keys() {
    let mut app: App<u32> = App::new();
    app.handle_key(key(KeyCode::Char('c')), 1);
    assert!(!app.should_quit);
    app.handle_key(KeyPress { code: KeyCode::Char('c'), control: true }, 1);
    assert!(app.should_quit);
    let mut b: App<u32> = App::new();
    b.handle_key(key(KeyCode::Char('q')), 1);
    assert!(b.should_quit);
}

#[test]
fn enter_opens_detail() {
    let mut app: App<u32> = App::new();
    app.handle_key(key(KeyCode::Enter), 1);
    assert_eq!(app.current_view, Screen::Dashboard);
    app.finish_scan(vec![1, 2]);
    app.selected_opportunity = 1;
    app.handle_key(key(KeyCode::Enter), 1);
    assert_eq!(app.current_view, Screen::Detail);
    assert_eq!(app.selected_opportunity, 0);
    app.handle_key(key(KeyCode::Char('j')), 1);
    assert_eq!(app.selected_opportunity, 1);
    app.handle_key(key(KeyCode::Up), 1);
    assert_eq!(app.selected_opportunity, 0);
    app.handle_key(key(KeyCode::Esc), 1);
    assert_eq!(app.current_view, Screen::StrategyList);
    app.handle_key(key(KeyCode::Down), 1);
    assert_eq!(app.selected_strategy, 1);
    app.handle_key(key(KeyCode::Enter), 1);
    assert_eq!(app.current_view, Screen::Detail);
    app.handle_key(key(KeyCode::Tab), 1);
    assert_eq!(app.current_view, Screen::Settings);
    app.handle_key(key(KeyCode::BackTab), 1);
    assert_eq!(app.current_view, Screen::Detail);
}

#[test]
fn detail_index_clamps() {
    let mut app: App<u32> = App::new();
    assert_eq!(app.detail_index(), None);
    app.finish_scan(vec![1, 2, 3]);
    app.selected_opportunity = 7;
    assert_eq!(app.detail_index(), Some(2));
    app.selected_opportunity = 1;
    assert_eq!(app.detail_index(), Some(1));
}
