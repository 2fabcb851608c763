//! Realm status, read from the status table of the front page.
use vstd::prelude::*;
use crate::html::{element_view, groups_view, select_within, selected_within, Element};
use crate::statistics::RealmStatistics;
use crate::text::{
    chars_of, contains, contains_exec, eq_ignore_ascii_case, eq_ignore_ascii_case_exec,
    lowercase_chars, only_digits, only_digits_exec, parse_u32, parse_u32_exec, string_from,
    trim, trim_exec, unicode_lowercase,
};

verus! {

/// The name, player count and state of one realm.
#[derive(Debug, Clone, Default)]
pub struct RealmStatus {
    pub name: String,
    pub online_players: u32,
    pub status: String,
}

/// `RealmStatus` as plain values.
pub struct StatusView {
    pub name: Seq<char>,
    pub online_players: u32,
    pub status: Seq<char>,
}

impl View for RealmStatus {
    type V = StatusView;

    open spec fn view(&self) -> StatusView {
        StatusView { name: self.name@, online_players: self.online_players, status: self.status@ }
    }
}

/// A list of statuses as plain values.
pub open spec fn statuses_view(v: Seq<RealmStatus>) -> Seq<StatusView> {
    v.map_values(|s: RealmStatus| s@)
}

/// The state named by a lowercased title: `Online` when it mentions `online`, else
/// `Offline` when it mentions `offline`, else `Unknown`.
pub open spec fn state_of_lower(lower: Seq<char>) -> Seq<char> {
    if contains(lower, "online"@) {
        "Online"@
    } else if contains(lower, "offline"@) {
        "Offline"@
    } else {
        "Unknown"@
    }
}

/// The state shown for a realm whose status cell has the given `title`: that named by the
/// lowercased title, or `Unknown` when there is no title.
pub open spec fn status_label(title: Option<Seq<char>>) -> Seq<char> {
    match title {
        Some(t) => state_of_lower(unicode_lowercase(t)),
        None => "Unknown"@,
    }
}

/// The state named by a lowercased title (see `state_of_lower`).
pub fn state_of_lowered(lower: &Vec<char>) -> (r: Vec<char>)
    ensures
        r@ == state_of_lower(lower@),
{
    if contains_exec(lower, &chars_of("online")) {
        chars_of("Online")
    } else if contains_exec(lower, &chars_of("offline")) {
        chars_of("Offline")
    } else {
        chars_of("Unknown")
    }
}

/// The player count of a realm: the digits of its cell read as a `u32`, or 0 when there are
/// none or they do not fit.
pub open spec fn player_count(cell: Seq<char>) -> u32 {
    match parse_u32(only_digits(cell)) {
        Some(v) => v,
        None => 0,
    }
}

/// The status one table row gives: rows with fewer than three cells, and the rows whose
/// trimmed second cell is empty or reads `Total` or `Realm` in any ASCII case, give none.
pub open spec fn row_status(cells: Seq<(Seq<char>, Option<Seq<char>>)>) -> Option<StatusView> {
    if cells.len() < 3 {
        None
    } else {
        let name = trim(cells[1].0);
        if eq_ignore_ascii_case(name, "Total"@) || name.len() == 0 || eq_ignore_ascii_case(
            name,
            "Realm"@,
        ) {
            None
        } else {
            Some(
                StatusView {
                    name,
                    online_players: player_count(cells[2].0),
                    status: status_label(cells[0].1),
                },
            )
        }
    }
}

/// The statuses of the rows that give one, in row order.
pub open spec fn realm_statuses(rows: Seq<Seq<(Seq<char>, Option<Seq<char>>)>>) -> Seq<
    StatusView,
>
    decreases rows.len(),
{
    if rows.len() == 0 {
        Seq::empty()
    } else {
        realm_statuses(rows.drop_last()) + match row_status(rows.last()) {
            Some(s) => seq![s],
            None => Seq::empty(),
        }
    }
}

/// The statuses read from the front page `html`, or nothing when a selector does not parse.
pub open spec fn page_statuses(html: Seq<char>) -> Option<Seq<StatusView>> {
    match selected_within(html, "table tr"@, "td"@, "title"@) {
        Some(rows) => Some(realm_statuses(rows)),
        None => None,
    }
}

/// The state label for a status cell's title (see `status_label`).
fn status_label_exec(title: &Option<String>) -> (r: Vec<char>)
    ensures
        r@ == status_label(
            match title {
                Some(t) => Some(t@),
                None => None,
            },
        ),
{
    match title {
        Some(t) => {
            let lower = lowercase_chars(&chars_of(t.as_str()));
            state_of_lowered(&lower)
        },
        None => chars_of("Unknown"),
    }
}

/// The status of one row (see `row_status`).
pub fn row_status_exec(cells: &Vec<Element>) -> (r: Option<RealmStatus>)
    ensures
        match r {
            Some(s) => row_status(cells@.map_values(|e: Element| element_view(e))) == Some(s@),
            None => row_status(cells@.map_values(|e: Element| element_view(e))) is None,
        },
{
    let ghost cv = cells@.map_values(|e: Element| element_view(e));
    if cells.len() < 3 {
        return None;
    }
    let name = trim_exec(&chars_of(cells[1].text.as_str()));
    if eq_ignore_ascii_case_exec(&name, &chars_of("Total")) || name.len() == 0
        || eq_ignore_ascii_case_exec(&name, &chars_of("Realm")) {
        return None;
    }
    let digits = only_digits_exec(&chars_of(cells[2].text.as_str()));
    let players = match parse_u32_exec(&digits) {
        Some(v) => v,
        None => 0,
    };
    let label = status_label_exec(&cells[0].attr);
    assert(cv[0].1 == match cells@[0].attr {
        Some(t) => Some(t@),
        None => None,
    });
    Some(RealmStatus { name: string_from(&name), online_players: players, status: string_from(&label) })
}

/// The statuses of the table rows, each given as its cells.
pub fn statuses_from_rows(rows: &Vec<Vec<Element>>) -> (r: Vec<RealmStatus>)
    ensures
        statuses_view(r@) == realm_statuses(groups_view(rows@)),
{
    let ghost all = groups_view(rows@);
    let mut out: Vec<RealmStatus> = Vec::new();
    let mut i: usize = 0;
    while i < rows.len()
        invariant
            i <= rows.len(),
            all == groups_view(rows@),
            statuses_view(out@) == realm_statuses(all.subrange(0, i as int)),
        decreases rows.len() - i,
    {
        assert(all.subrange(0, i + 1).drop_last() =~= all.subrange(0, i as int));
        assert(all.subrange(0, i + 1).last() == rows@[i as int]@.map_values(
            |e: Element| element_view(e),
        ));
        let ghost before = statuses_view(out@);
        match row_status_exec(&rows[i]) {
            Some(s) => {
                out.push(s);
                assert(statuses_view(out@) =~= before + seq![s@]);
            },
            None => {
                assert(statuses_view(out@) =~= before + Seq::<StatusView>::empty());
            },
        }
        i += 1;
    }
    assert(all.subrange(0, rows.len() as int) =~= all);
    out
}

/// The realm statuses of the front page `html`, read from the cells of its table rows, with
/// no statistics beside them: it fails only when a selector does not parse.
pub fn parse_warmane_status_html(html: &str) -> (r: Result<
    (Vec<RealmStatus>, Vec<RealmStatistics>),
    String,
>)
    ensures
        match r {
            Ok((statuses, stats)) => page_statuses(html@) == Some(statuses_view(statuses@))
                && stats@.len() == 0,
            Err(_) => page_statuses(html@) is None,
        },
{
    let rows = select_within(html, "table tr", "td", "title")?;
    Ok((statuses_from_rows(&rows), Vec::new()))
}

} // verus!
