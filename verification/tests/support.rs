use warmane_tui::app::App;
use warmane_tui::net::{
    fetch_step, reach_start, reach_step, socket_address_exec, FetchEvent, FetchStep, ReachEvent,
    ReachStep, CONNECT_TIMEOUT_SECS, FETCH_ATTEMPTS,
};
use warmane_tui::status::RealmStatus;
use warmane_tui::statistics::RealmStatistics;
use warmane_tui::text::{
    chars_of, decimal_exec, first_word_exec, last_u32_in_list, lowercase_chars, parse_u32_exec,
    string_from, trim_exec,
};
use warmane_tui::view::{delta_label, delta_tone, highlight_level, percent_label, Highlight, Tone};

fn v(s: &str) -> Vec<char> {
    chars_of(s)
}

#[test]
fn parsing_numbers_like_std() {
    for s in ["0", "42", "+7", "007", "4294967295", "4294967296", "", "+", "-1", "1 ", "++1", "12a"] {
        assert_eq!(parse_u32_exec(&v(s)), s.parse::<u32>().ok(), "{:?}", s);
    }
}

#[test]
fn trimming_like_std() {
    for s in ["  a b  ", "\u{a0}x\u{3000}", "", "   ", "\tq\n", "\u{200b}z"] {
        assert_eq!(string_from(&trim_exec(&v(s))), s.trim(), "{:?}", s);
    }
}

#[test]
fn first_word_like_split_whitespace() {
    for s in ["  Onyxia x5", "", "   ", "one", "a\u{2003}b"] {
        let expected = s.split_whitespace().next().unwrap_or("");
        assert_eq!(string_from(&first_word_exec(&v(s))), expected);
    }
}

#[test]
fn last_value_in_list() {
    assert_eq!(last_u32_in_list(&v("1, 2, x")), Some(2));
    assert_eq!(last_u32_in_list(&v("")), None);
    assert_eq!(last_u32_in_list(&v(",,")), None);
}

#[test]
fn decimal_and_count_roundtrip() {
    for n in [0u64, 9, 10, 1234, 4294967295] {
        let d = decimal_exec(n);
        assert_eq!(string_from(&d), n.to_string());
        assert_eq!(parse_u32_exec(&d), Some(n as u32));
    }
}

#[test]
fn lowercase_matches_std() {
    assert_eq!(string_from(&lowercase_chars(&v("MAINTENANCE Ä"))), "maintenance ä");
}

#[test]
fn labels() {
    assert_eq!(delta_label(5), "+5");
    assert_eq!(delta_label(0), "+0");
    assert_eq!(delta_label(-12), "-12");
    assert_eq!(delta_label(i32::MIN), "-2147483648");
    assert_eq!(delta_tone(3), Tone::Gain);
    assert_eq!(delta_tone(-3), Tone::Loss);
    assert_eq!(delta_tone(0), Tone::Steady);
    assert_eq!(percent_label(45), "45%");
}

#[test]
fn highlights() {
    assert_eq!(highlight_level("Scheduled MAINTENANCE and a nerf"), Highlight::Critical);
    assert_eq!(highlight_level("Gold Squish coming"), Highlight::Warning);
    assert_eq!(highlight_level("Realm is DOWN"), Highlight::Critical);
    assert_eq!(highlight_level("New event"), Highlight::Plain);
}

#[test]
fn table_rows() {
    let mut app = App::new();
    app.realm_statuses = vec![RealmStatus { name: "A".into(), online_players: 10, status: "Online".into() }];
    app.player_deltas = vec![("A".into(), -3)];
    app.logon_up = true;
    let rows = app.status_rows();
    assert_eq!(rows.len(), 1);
    assert_eq!(rows[0].players, "10");
    assert_eq!(rows[0].delta, "-3");
    assert_eq!(rows[0].tone, Tone::Loss);
    assert!(rows[0].logon_up);
    app.player_deltas.clear();
    assert_eq!(app.status_rows()[0].delta, "+0");
    app.realm_statistics = vec![RealmStatistics { name: "X".into(), alliance: 40, horde: 60, uptime: "u".into(), latency: "l".into() }];
    let srows = app.statistics_rows();
    assert_eq!((srows[0].alliance.as_str(), srows[0].horde.as_str()), ("40%", "60%"));
}

#[test]
fn fetch_retries_once() {
    assert_eq!(FETCH_ATTEMPTS, 2);
    assert_eq!(fetch_step(1, FetchEvent::Responded), FetchStep::ReadBody);
    assert_eq!(fetch_step(1, FetchEvent::SendFailed), FetchStep::Retry { secs: 1, next_attempt: 2 });
    assert_eq!(fetch_step(2, FetchEvent::SendFailed), FetchStep::GiveUp { secs: 2 });
}

#[test]
fn reachability_steps() {
    assert_eq!(socket_address_exec("145.239.161.30", 8091), "145.239.161.30:8091");
    match reach_start("1.2.3.4", 80) {
        ReachStep::Connect { address, timeout_secs } => {
            assert_eq!(address, "1.2.3.4:80");
            assert_eq!(timeout_secs, CONNECT_TIMEOUT_SECS);
        }
        _ => panic!("expected a connection"),
    }
    assert!(matches!(reach_step("h", false, ReachEvent::Connected), ReachStep::Done(true)));
    match reach_step("h", false, ReachEvent::ConnectTimedOut) {
        ReachStep::Ping { program, args } => {
            assert_eq!(program, "ping");
            assert_eq!(args, vec!["-c", "1", "-W", "1", "h"]);
        }
        _ => panic!("expected a ping"),
    }
    match reach_step("h", true, ReachEvent::ConnectFailed) {
        ReachStep::Ping { args, .. } => assert_eq!(args, vec!["-n", "1", "-w", "1000", "h"]),
        _ => panic!("expected a ping"),
    }
    assert!(matches!(reach_step("h", true, ReachEvent::PingExited(false)), ReachStep::Done(false)));
    assert!(matches!(reach_step("h", true, ReachEvent::PingNotRun), ReachStep::Done(false)));
}
