//! What the dashboard shows: the rows of its tables and how news entries are highlighted.
use vstd::prelude::*;
use crate::app::App;
use crate::table::{entries_view, lookup};
use crate::text::{
    chars_of, contains, contains_exec, decimal, lowercase_chars, push_all, push_decimal,
    string_from, unicode_lowercase,
};

verus! {

/// How a change in players is coloured: up, down, or unchanged.
#[derive(Debug, Clone, Copy, PartialEq, Eq, Structural)]
pub enum Tone {
    Gain,
    Loss,
    Steady,
}

/// The tone of a change: `Gain` above zero, `Loss` below, `Steady` at zero.
pub open spec fn tone_of(delta: i32) -> Tone {
    if delta > 0 {
        Tone::Gain
    } else if delta < 0 {
        Tone::Loss
    } else {
        Tone::Steady
    }
}

/// A change written with its sign: `+` before zero and positive values, `-` before negative.
pub open spec fn signed_label(delta: int) -> Seq<char> {
    if delta >= 0 {
        "+"@ + decimal(delta as nat)
    } else {
        "-"@ + decimal((-delta) as nat)
    }
}

/// A share written as a percentage.
pub open spec fn percent_text(v: u32) -> Seq<char> {
    decimal(v as nat) + "%"@
}

/// The tone of a change.
pub fn delta_tone(delta: i32) -> (r: Tone)
    ensures
        r == tone_of(delta),
{
    if delta > 0 {
        Tone::Gain
    } else if delta < 0 {
        Tone::Loss
    } else {
        Tone::Steady
    }
}

/// A change written with its sign (`format!("+{}", d)` when `d >= 0`, else `d.to_string()`).
pub fn delta_label(delta: i32) -> (r: String)
    ensures
        r@ == signed_label(delta as int),
{
    let mut v: Vec<char> = Vec::new();
    if delta >= 0 {
        v.push('+');
        push_decimal(&mut v, delta as u64);
    } else {
        v.push('-');
        let magnitude: u64 = (-(delta as i64)) as u64;
        push_decimal(&mut v, magnitude);
    }
    proof {
        reveal_strlit("+");
        reveal_strlit("-");
    }
    assert(v@ =~= signed_label(delta as int));
    string_from(&v)
}

/// A share written as a percentage (`format!("{}%", v)`).
pub fn percent_label(v: u32) -> (r: String)
    ensures
        r@ == percent_text(v),
{
    let mut out: Vec<char> = Vec::new();
    push_decimal(&mut out, v as u64);
    push_all(&mut out, &chars_of("%"));
    assert(out@ =~= percent_text(v));
    string_from(&out)
}

/// One row of the server status table.
pub struct StatusRow {
    pub name: String,
    pub players: String,
    pub delta: String,
    pub tone: Tone,
    /// Whether the logon server answered: all status lights follow it.
    pub logon_up: bool,
}

/// One row of the population statistics table.
pub struct StatisticsRow {
    pub name: String,
    pub alliance: String,
    pub horde: String,
    pub uptime: String,
    pub latency: String,
}

/// How a news entry is highlighted.
#[derive(Debug, Clone, Copy, PartialEq, Eq, Structural)]
pub enum Highlight {
    Critical,
    Warning,
    Plain,
}

/// Words that mark a news entry as critical.
pub open spec fn critical_keywords() -> Seq<Seq<char>> {
    seq![
        "maintenance"@,
        "offline"@,
        "all realms will be taken offline"@,
        "down"@,
        "shutdown"@,
        "unavailable"@,
    ]
}

/// Words that mark a news entry as a warning.
pub open spec fn warning_keywords() -> Seq<Seq<char>> {
    seq!["gold squish"@, "nerf"@, "exploit"@, "wipe"@, "reset"@, "rollback"@, "issue"@]
}

/// `text` contains one of `keys`.
pub open spec fn mentions_any(text: Seq<char>, keys: Seq<Seq<char>>) -> bool {
    exists|i: int| 0 <= i < keys.len() && contains(text, #[trigger] keys[i])
}

/// The highlight of a lowercased news text: `Critical` when it holds a critical keyword,
/// else `Warning` when it holds a warning keyword, else `Plain`.
pub open spec fn highlight_of_lower(lower: Seq<char>) -> Highlight {
    if mentions_any(lower, critical_keywords()) {
        Highlight::Critical
    } else if mentions_any(lower, warning_keywords()) {
        Highlight::Warning
    } else {
        Highlight::Plain
    }
}

/// The highlight of a news text: that of its lowercase.
pub open spec fn highlight_of(text: Seq<char>) -> Highlight {
    highlight_of_lower(unicode_lowercase(text))
}

/// Keywords as plain values.
pub open spec fn keys_view(keys: Seq<Vec<char>>) -> Seq<Seq<char>> {
    keys.map_values(|k: Vec<char>| k@)
}

/// Whether `text` contains one of `keys`.
fn mentions_any_exec(text: &Vec<char>, keys: &Vec<Vec<char>>) -> (r: bool)
    ensures
        r == mentions_any(text@, keys_view(keys@)),
{
    let mut i: usize = 0;
    while i < keys.len()
        invariant
            i <= keys.len(),
            forall|j: int| 0 <= j < i ==> !contains(text@, #[trigger] keys_view(keys@)[j]),
        decreases keys.len() - i,
    {
        if contains_exec(text, &keys[i]) {
            assert(contains(text@, keys_view(keys@)[i as int]));
            return true;
        }
        i += 1;
    }
    false
}

/// How a news text is highlighted (see `highlight_of`).
pub fn highlight_level(text: &str) -> (r: Highlight)
    ensures
        r == highlight_of(text@),
{
    let lower = lowercase_chars(&chars_of(text));
    highlight_of_lowered(&lower)
}

/// How a lowercased news text is highlighted (see `highlight_of_lower`).
pub fn highlight_of_lowered(lower: &Vec<char>) -> (r: Highlight)
    ensures
        r == highlight_of_lower(lower@),
{
    let critical = vec![
        chars_of("maintenance"),
        chars_of("offline"),
        chars_of("all realms will be taken offline"),
        chars_of("down"),
        chars_of("shutdown"),
        chars_of("unavailable"),
    ];
    assert(keys_view(critical@) =~= critical_keywords());
    if mentions_any_exec(lower, &critical) {
        return Highlight::Critical;
    }
    let warning = vec![
        chars_of("gold squish"),
        chars_of("nerf"),
        chars_of("exploit"),
        chars_of("wipe"),
        chars_of("reset"),
        chars_of("rollback"),
        chars_of("issue"),
    ];
    assert(keys_view(warning@) =~= warning_keywords());
    if mentions_any_exec(lower, &warning) {
        Highlight::Warning
    } else {
        Highlight::Plain
    }
}


/// A status row as plain values: name, players, change, tone, logon state.
pub open spec fn status_row_view(r: StatusRow) -> (Seq<char>, Seq<char>, Seq<char>, Tone, bool) {
    (r.name@, r.players@, r.delta@, r.tone, r.logon_up)
}

/// The row shown for a realm: its name, its player count, its recorded change (zero when
/// none is recorded) with its sign and tone, and the logon state.
pub open spec fn status_row_of(app: App, s: crate::status::RealmStatus) -> (
    Seq<char>,
    Seq<char>,
    Seq<char>,
    Tone,
    bool,
) {
    let d = match lookup(entries_view(app.player_deltas@), s.name@) {
        Some(d) => d,
        None => 0i32,
    };
    (s.name@, decimal(s.online_players as nat), signed_label(d as int), tone_of(d), app.logon_up)
}

/// A statistics row as plain values.
pub open spec fn statistics_row_view(r: StatisticsRow) -> (
    Seq<char>,
    Seq<char>,
    Seq<char>,
    Seq<char>,
    Seq<char>,
) {
    (r.name@, r.alliance@, r.horde@, r.uptime@, r.latency@)
}

/// The row shown for a realm's statistics: name, shares as percentages, uptime, latency.
pub open spec fn statistics_row_of(s: crate::statistics::RealmStatistics) -> (
    Seq<char>,
    Seq<char>,
    Seq<char>,
    Seq<char>,
    Seq<char>,
) {
    (s.name@, percent_text(s.alliance), percent_text(s.horde), s.uptime@, s.latency@)
}

impl App {
    /// The rows of the server status table, one per realm status, in order.
    pub fn status_rows(&self) -> (r: Vec<StatusRow>)
        ensures
            r@.len() == self.realm_statuses@.len(),
            forall|i: int|
                0 <= i < r@.len() ==> status_row_view(#[trigger] r@[i]) == status_row_of(
                    *self,
                    self.realm_statuses@[i],
                ),
            forall|i: int|
                0 <= i < r@.len() ==> {
                    &&& (#[trigger] r@[i]).name@ == self.realm_statuses@[i].name@
                    &&& r@[i].players@ == decimal(self.realm_statuses@[i].online_players as nat)
                    &&& r@[i].logon_up == self.logon_up
                    &&& match lookup(
                        entries_view(self.player_deltas@),
                        self.realm_statuses@[i].name@,
                    ) {
                        Some(d) => r@[i].tone == tone_of(d) && r@[i].delta@ == signed_label(
                            d as int,
                        ),
                        None => r@[i].tone == Tone::Steady && r@[i].delta@ == seq!['+', '0'],
                    }
                },
    {
        let mut rows: Vec<StatusRow> = Vec::new();
        let mut i: usize = 0;
        while i < self.realm_statuses.len()
            invariant
                i <= self.realm_statuses.len(),
                rows@.len() == i,
                forall|j: int|
                    0 <= j < i ==> status_row_view(#[trigger] rows@[j]) == status_row_of(
                        *self,
                        self.realm_statuses@[j],
                    ),
            decreases self.realm_statuses.len() - i,
        {
            let s = &self.realm_statuses[i];
            let d = match self.player_delta(&s.name) {
                Some(d) => d,
                None => 0,
            };
            let mut players: Vec<char> = Vec::new();
            push_decimal(&mut players, s.online_players as u64);
            assert(players@ =~= decimal(s.online_players as nat));
            rows.push(
                StatusRow {
                    name: s.name.clone(),
                    players: string_from(&players),
                    delta: delta_label(d),
                    tone: delta_tone(d),
                    logon_up: self.logon_up,
                },
            );
            i += 1;
        }
        proof {
            reveal_strlit("+");
            assert(decimal(0) =~= seq!['0']);
            assert forall|i: int| 0 <= i < rows@.len() implies {
                &&& (#[trigger] rows@[i]).name@ == self.realm_statuses@[i].name@
                &&& rows@[i].players@ == decimal(self.realm_statuses@[i].online_players as nat)
                &&& rows@[i].logon_up == self.logon_up
                &&& match lookup(entries_view(self.player_deltas@), self.realm_statuses@[i].name@) {
                    Some(d) => rows@[i].tone == tone_of(d) && rows@[i].delta@ == signed_label(
                        d as int,
                    ),
                    None => rows@[i].tone == Tone::Steady && rows@[i].delta@ == seq!['+', '0'],
                }
            } by {
                assert(status_row_view(rows@[i]) == status_row_of(*self, self.realm_statuses@[i]));
                assert(signed_label(0) =~= seq!['+', '0']);
            }
        }
        rows
    }

    /// The rows of the population statistics table, one per realm, in order.
    pub fn statistics_rows(&self) -> (r: Vec<StatisticsRow>)
        ensures
            r@.len() == self.realm_statistics@.len(),
            forall|i: int|
                0 <= i < r@.len() ==> statistics_row_view(#[trigger] r@[i]) == statistics_row_of(
                    self.realm_statistics@[i],
                ),
            forall|i: int|
                0 <= i < r@.len() ==> {
                    &&& (#[trigger] r@[i]).name@ == self.realm_statistics@[i].name@
                    &&& r@[i].alliance@ == decimal(self.realm_statistics@[i].alliance as nat)
                        + seq!['%']
                    &&& r@[i].horde@ == decimal(self.realm_statistics@[i].horde as nat) + seq!['%']
                    &&& r@[i].uptime@ == self.realm_statistics@[i].uptime@
                    &&& r@[i].latency@ == self.realm_statistics@[i].latency@
                },
    {
        let mut rows: Vec<StatisticsRow> = Vec::new();
        let mut i: usize = 0;
        while i < self.realm_statistics.len()
            invariant
                i <= self.realm_statistics.len(),
                rows@.len() == i,
                forall|j: int|
                    0 <= j < i ==> statistics_row_view(#[trigger] rows@[j]) == statistics_row_of(
                        self.realm_statistics@[j],
                    ),
            decreases self.realm_statistics.len() - i,
        {
            let s = &self.realm_statistics[i];
            rows.push(
                StatisticsRow {
                    name: s.name.clone(),
                    alliance: percent_label(s.alliance),
                    horde: percent_label(s.horde),
                    uptime: s.uptime.clone(),
                    latency: s.latency.clone(),
                },
            );
            i += 1;
        }
        proof {
            reveal_strlit("%");
            assert forall|i: int| 0 <= i < rows@.len() implies {
                &&& (#[trigger] rows@[i]).name@ == self.realm_statistics@[i].name@
                &&& rows@[i].alliance@ == decimal(self.realm_statistics@[i].alliance as nat) + seq![
                    '%',
                ]
                &&& rows@[i].horde@ == decimal(self.realm_statistics@[i].horde as nat) + seq!['%']
                &&& rows@[i].uptime@ == self.realm_statistics@[i].uptime@
                &&& rows@[i].latency@ == self.realm_statistics@[i].latency@
            } by {
                assert(statistics_row_view(rows@[i]) == statistics_row_of(
                    self.realm_statistics@[i],
                ));
            }
        }
        rows
    }
}

} // verus!
