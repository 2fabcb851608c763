use warmane_tui::html::{select_texts, select_within, select_within_twice, Element};
use warmane_tui::news::{news_from_sections, parse_news, NEWS_LIMIT};
use warmane_tui::statistics::{
    extract_faction_value, parse_statistics_from_html, statistics_from_sections, DEFAULT_SHARE,
};
use warmane_tui::status::{parse_warmane_status_html, row_status_exec, statuses_from_rows};
use warmane_tui::net::status_and_uptime_from_pages;

fn el(text: &str, attr: Option<&str>) -> Element {
    Element { text: text.to_string(), attr: attr.map(|a| a.to_string()) }
}

#[test]
fn faction_value_takes_last_listed_value() {
    let block = "Alliance', data: [10, 20, 35] }, { name: 'Horde', data: [90, 80, 65] }";
    assert_eq!(extract_faction_value(block, "Alliance"), 35);
    assert_eq!(extract_faction_value(block, "Horde"), 65);
}

#[test]
fn faction_value_defaults_when_missing() {
    assert_eq!(extract_faction_value("nothing here", "Alliance"), DEFAULT_SHARE);
    assert_eq!(extract_faction_value("Alliance but no list", "Alliance"), 50);
    assert_eq!(extract_faction_value("Alliance data: no bracket", "Alliance"), 50);
    assert_eq!(extract_faction_value("Alliance data: [1, 2", "Alliance"), 50);
    assert_eq!(extract_faction_value("Alliance data: []", "Alliance"), 50);
}

#[test]
fn faction_value_skips_unparsable_values() {
    assert_eq!(extract_faction_value("Alliance data: [ 7 , x, ]", "Alliance"), 7);
    assert_eq!(extract_faction_value("Alliance data: [+12,-3]", "Alliance"), 12);
    assert_eq!(extract_faction_value("Alliance data: [5, 99999999999]", "Alliance"), 5);
    assert_eq!(extract_faction_value("Alliance data: [\u{a0}42\u{a0}]", "Alliance"), 42);
}

#[test]
fn faction_value_uses_first_faction_mention() {
    let block = "Alliance data: [1] Alliance data: [2]";
    assert_eq!(extract_faction_value(block, "Alliance"), 1);
}

const STATUS_PAGE: &str = r#"<html><body><table>
<tr><td>St.</td><td>Realm</td><td>Players</td></tr>
<tr><td title="Realm is Online"></td><td> Icecrown </td><td>1,234 players</td></tr>
<tr><td title="OFFLINE"></td><td>Lordaeron</td><td>none</td></tr>
<tr><td></td><td>Blackrock</td><td>99</td></tr>
<tr><td title="maintenance"></td><td>Onyxia</td><td>5</td></tr>
<tr><td></td><td>total</td><td>1338</td></tr>
<tr><td></td><td>   </td><td>7</td></tr>
<tr><td>x</td><td>short</td></tr>
</table></body></html>"#;

#[test]
fn status_table_is_read_row_by_row() {
    let (statuses, stats) = parse_warmane_status_html(STATUS_PAGE).unwrap();
    assert!(stats.is_empty());
    let names: Vec<&str> = statuses.iter().map(|s| s.name.as_str()).collect();
    assert_eq!(names, vec!["Icecrown", "Lordaeron", "Blackrock", "Onyxia"]);
    assert_eq!(statuses[0].online_players, 1234);
    assert_eq!(statuses[0].status, "Online");
    assert_eq!(statuses[1].online_players, 0);
    assert_eq!(statuses[1].status, "Offline");
    assert_eq!(statuses[2].online_players, 99);
    assert_eq!(statuses[2].status, "Unknown");
    assert_eq!(statuses[3].status, "Unknown");
}

#[test]
fn status_rows_from_cells() {
    let row = vec![el("", Some("online now")), el("  Frostmourne ", None), el("4 294 967 296", None)];
    let s = row_status_exec(&row).unwrap();
    assert_eq!(s.name, "Frostmourne");
    assert_eq!(s.online_players, 0);
    assert_eq!(s.status, "Online");
    assert!(row_status_exec(&vec![el("", None), el("REALM", None), el("1", None)]).is_none());
    assert!(row_status_exec(&vec![el("", None), el("Total", None)]).is_none());
    let rows = vec![row, vec![el("", None), el("ToTaL", None), el("5", None)]];
    assert_eq!(statuses_from_rows(&rows).len(), 1);
}

#[test]
fn selector_errors_are_reported() {
    assert!(select_texts("<p>x</p>", "p[").is_err());
    assert!(select_within("<p>x</p>", "p", ":::", "title").is_err());
    assert!(select_within_twice("<p>x</p>", "p", "p", "[[").is_err());
}

#[test]
fn selections_follow_document_order() {
    let html = "<div class='a'><p title='t1'>one</p><p>two</p></div><div class='a'></div>";
    let texts = select_texts(html, "p").unwrap();
    assert_eq!(texts, vec!["one".to_string(), "two".to_string()]);
    let groups = select_within(html, "div.a", "p", "title").unwrap();
    assert_eq!(groups.len(), 2);
    assert_eq!(groups[0].len(), 2);
    assert_eq!(groups[0][0].text, "one");
    assert_eq!(groups[0][0].attr.as_deref(), Some("t1"));
    assert_eq!(groups[0][1].attr, None);
    assert!(groups[1].is_empty());
    let nested = select_within_twice(html, "div.a", "p", "b").unwrap();
    assert_eq!(nested.len(), 2);
    assert_eq!(nested[0].len(), 2);
}

const INFO_PAGE: &str = r#"<html><head>
<script>var other = 1;</script>
<script>
var statdata = {
 14: { series: [{ name: 'Alliance', data: [40, 45] }, { name: 'Horde', data: [60, 55] }] },
 6: { series: [{ name: 'Alliance', data: [30] }, { name: 'Horde', data: [70] }] },
 10: { series: [{ name: 'Alliance', data: [] }, { name: 'Horde', data: [12] }] },
 time: "16:03"
};
</script></head><body>
<div class="wm-ui-statistics"><span>Onyxia x5</span><div class="stats"><div>99.9%</div><div>20ms</div></div></div>
<div class="wm-ui-statistics"><span>Lordaeron x1</span><div class="stats"><div>only one</div></div></div>
<div class="wm-ui-statistics"><span>  Blackrock  </span><div class="stats"><div>50%</div><div>80ms</div></div></div>
</body></html>"#;

#[test]
fn statistics_page_is_read() {
    let stats = parse_statistics_from_html(INFO_PAGE).unwrap();
    assert_eq!(stats.len(), 3);
    assert_eq!(stats[0].name, "ONYXIA");
    assert_eq!((stats[0].alliance, stats[0].horde), (45, 55));
    assert_eq!((stats[0].uptime.as_str(), stats[0].latency.as_str()), ("99.9%", "20ms"));
    assert_eq!(stats[1].name, "LORDAERON");
    assert_eq!((stats[1].alliance, stats[1].horde), (30, 70));
    assert_eq!(stats[1].uptime, "Unknown");
    assert_eq!(stats[1].latency, "Unknown");
    assert_eq!(stats[2].name, "BLACKROCK");
    assert_eq!((stats[2].alliance, stats[2].horde), (50, 12));
    assert_eq!(stats[2].uptime, "50%");
}

#[test]
fn statistics_later_scripts_win() {
    let scripts = vec![
        "var statdata = { 7: { Alliance data: [1] Horde data: [2] } }".to_string(),
        "nothing".to_string(),
        "var statdata = { 7: { Alliance data: [3] Horde data: [4] } }".to_string(),
        "7: { Alliance data: [5] Horde data: [6] }".to_string(),
    ];
    let spans = vec![vec![el("ICECROWN", None)], vec![el("Icecrown", None)]];
    let blocks = vec![
        vec![vec!["a".to_string(), "b".to_string()]],
        vec![vec!["c".to_string(), "d".to_string()], vec!["e".to_string(), "f".to_string()]],
    ];
    let stats = statistics_from_sections(&scripts, &spans, &blocks);
    assert_eq!(stats.len(), 1);
    assert_eq!(stats[0].name, "ICECROWN");
    assert_eq!((stats[0].alliance, stats[0].horde), (3, 4));
    assert_eq!((stats[0].uptime.as_str(), stats[0].latency.as_str()), ("c", "d"));
}

#[test]
fn statistics_empty_without_statdata() {
    assert!(parse_statistics_from_html("<html></html>").unwrap().is_empty());
}

const NEWS_PAGE: &str = r#"<html><body>
<div class="wm-ui-article-title"><p> Server maintenance </p><p> 2024-01-02 </p></div>
<div class="wm-ui-article-content">  All realms will be taken offline.&nbsp;Sorry  </div>
<div class="wm-ui-article-title"><p>   </p><p>2024-01-01</p></div>
<div class="wm-ui-article-content">hidden</div>
<div class="wm-ui-article-title"><p>Only title</p></div>
</body></html>"#;

#[test]
fn news_page_is_read() {
    let news = parse_news(NEWS_PAGE).unwrap();
    assert_eq!(news.len(), 2);
    assert_eq!(news[0].0, "[2024-01-02] Server maintenance\nAll realms will be taken offline. Sorry");
    assert_eq!(news[0].1, "#");
    assert_eq!(news[1].0, "[] Only title\n...");
}

#[test]
fn news_falls_back_when_empty() {
    let news = parse_news("<html><body><p>nothing</p></body></html>").unwrap();
    assert_eq!(news, vec![("Forum temporarily unavailable".to_string(), "#".to_string())]);
}

#[test]
fn news_is_limited() {
    let titles: Vec<Vec<Element>> = (0..25).map(|i| vec![el(&format!("t{}", i), None)]).collect();
    let news = news_from_sections(&titles, &vec![]);
    assert_eq!(news.len(), NEWS_LIMIT);
    assert_eq!(news[16].0, "[] t16\n...");
}

#[test]
fn overview_combines_pages() {
    let (statuses, stats) = status_and_uptime_from_pages(STATUS_PAGE, Some(INFO_PAGE)).unwrap();
    assert_eq!(statuses.len(), 4);
    assert_eq!(stats.len(), 3);
    let (statuses, stats) = status_and_uptime_from_pages(STATUS_PAGE, None).unwrap();
    assert_eq!(statuses.len(), 4);
    assert!(stats.is_empty());
}
