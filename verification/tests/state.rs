use warmane_tui::app::{App, AppEvent, Command, Key, UpdatePayload};
use warmane_tui::statistics::RealmStatistics;
use warmane_tui::status::RealmStatus;

fn realm(name: &str, players: u32) -> RealmStatus {
    RealmStatus { name: name.to_string(), online_players: players, status: "Online".to_string() }
}

fn news(n: usize) -> Vec<(String, String)> {
    (0..n).map(|i| (format!("n{}", i), "#".to_string())).collect()
}

fn payload(realms: Vec<RealmStatus>, n: usize) -> UpdatePayload {
    UpdatePayload { warmane_res: Ok((realms, vec![])), news_res: Ok(news(n)), logon_up: true }
}

#[test]
fn new_app_is_empty() {
    let app = App::new();
    assert!(app.realm_statuses.is_empty());
    assert!(app.latest_news.is_empty());
    assert_eq!(app.news_selected, None);
    assert!(!app.should_quit && !app.is_loading && !app.logon_up);
}

#[test]
fn news_selection_wraps_both_ways() {
    let mut app = App::new();
    app.next_news();
    assert_eq!(app.news_selected, None);
    app.latest_news = news(3);
    app.next_news();
    assert_eq!(app.news_selected, Some(0));
    app.next_news();
    app.next_news();
    assert_eq!(app.news_selected, Some(2));
    app.next_news();
    assert_eq!(app.news_selected, Some(0));
    app.previous_news();
    assert_eq!(app.news_selected, Some(2));
    app.news_selected = None;
    app.previous_news();
    assert_eq!(app.news_selected, Some(0));
    app.news_selected = Some(7);
    app.next_news();
    assert_eq!(app.news_selected, Some(0));
}

#[test]
fn next_then_previous_returns() {
    let mut app = App::new();
    app.latest_news = news(4);
    for i in 0..4 {
        app.news_selected = Some(i);
        app.next_news();
        app.previous_news();
        assert_eq!(app.news_selected, Some(i));
    }
}

#[test]
fn update_records_deltas() {
    let mut app = App::new();
    app.is_loading = true;
    app.apply_update(payload(vec![realm("Icecrown", 100), realm("Lordaeron", 50)], 2));
    assert!(!app.is_loading);
    assert!(app.logon_up);
    assert_eq!(app.news_selected, Some(0));
    assert_eq!(app.player_delta(&"Icecrown".to_string()), None);
    assert_eq!(app.previous_players(&"Icecrown".to_string()), Some(100));
    app.apply_update(payload(vec![realm("Icecrown", 90), realm("Blackrock", 5)], 1));
    assert_eq!(app.player_delta(&"Icecrown".to_string()), Some(-10));
    assert_eq!(app.player_delta(&"Blackrock".to_string()), None);
    assert_eq!(app.previous_players(&"Lordaeron".to_string()), Some(50));
    assert_eq!(app.realm_statuses.len(), 2);
    assert_eq!(app.latest_news.len(), 1);
    assert_eq!(app.news_selected, Some(0));
}

#[test]
fn update_with_repeated_realm_uses_latest() {
    let mut app = App::new();
    app.apply_update(payload(vec![realm("A", 10), realm("A", 15)], 0));
    assert_eq!(app.player_delta(&"A".to_string()), Some(5));
    assert_eq!(app.previous_players(&"A".to_string()), Some(15));
    assert_eq!(app.news_selected, None);
}

#[test]
fn failed_update_keeps_data() {
    let mut app = App::new();
    app.apply_update(payload(vec![realm("A", 10)], 2));
    app.last_error = Some("old".to_string());
    app.apply_update(UpdatePayload {
        warmane_res: Err("down".to_string()),
        news_res: Err("down".to_string()),
        logon_up: false,
    });
    assert_eq!(app.realm_statuses.len(), 1);
    assert_eq!(app.latest_news.len(), 2);
    assert_eq!(app.last_error, None);
    assert!(!app.logon_up);
}

#[test]
fn update_fit_check() {
    let mut app = App::new();
    app.apply_update(payload(vec![realm("A", 1)], 0));
    let big = payload(vec![realm("A", 2_147_483_648)], 0);
    assert!(!app.update_fits(&big));
    let edge = payload(vec![realm("C", 1), realm("C", 2_147_483_648)], 0);
    assert!(!app.update_fits(&edge));
    let fine = payload(vec![realm("A", 2_147_483_647)], 0);
    assert!(app.update_fits(&fine));
    app.apply_update(fine);
    assert_eq!(app.player_delta(&"A".to_string()), Some(2_147_483_646));
    let wrapped = payload(vec![realm("B", 4_294_967_295), realm("B", 4_294_967_290)], 0);
    assert!(app.update_fits(&wrapped));
    app.apply_update(wrapped);
    assert_eq!(app.player_delta(&"B".to_string()), Some(-5));
}

#[test]
fn events_drive_the_app() {
    let mut app = App::new();
    assert_eq!(app.handle_event(AppEvent::Tick), Command::StartUpdate);
    assert_eq!(app.handle_event(AppEvent::Tick), Command::Nothing);
    let stats = vec![RealmStatistics::default()];
    let p = UpdatePayload { warmane_res: Ok((vec![realm("A", 1)], stats)), news_res: Ok(news(2)), logon_up: true };
    assert_eq!(app.handle_event(AppEvent::Update(p)), Command::Nothing);
    assert_eq!(app.realm_statistics.len(), 1);
    assert_eq!(app.handle_event(AppEvent::Input(Key::Down)), Command::Nothing);
    assert_eq!(app.news_selected, Some(1));
    app.handle_event(AppEvent::Input(Key::Up));
    assert_eq!(app.news_selected, Some(0));
    app.handle_event(AppEvent::Input(Key::Char('x')));
    app.handle_event(AppEvent::Input(Key::Other));
    assert!(!app.should_quit);
    app.handle_event(AppEvent::Input(Key::Char('q')));
    assert!(app.should_quit);
    assert_eq!(app.handle_event(AppEvent::Tick), Command::StartUpdate);
}

#[test]
fn previous_then_next_returns() {
    let mut app = App::new();
    app.latest_news = news(3);
    for i in 0..3 {
        app.news_selected = Some(i);
        app.previous_news();
        app.next_news();
        assert_eq!(app.news_selected, Some(i));
    }
}

#[test]
fn moving_down_cycles_through_the_news() {
    let mut app = App::new();
    app.latest_news = news(5);
    app.news_selected = Some(3);
    for _ in 0..5 {
        app.next_news();
    }
    assert_eq!(app.news_selected, Some(3));
}

#[test]
fn one_entry_per_realm() {
    let mut app = App::new();
    for n in 0..4 {
        app.apply_update(payload(vec![realm("A", n), realm("B", n), realm("A", n + 1)], 0));
    }
    assert_eq!(app.prev_players.len(), 2);
    assert_eq!(app.player_deltas.len(), 2);
    assert_eq!(app.player_delta(&"B".to_string()), Some(1));
}
