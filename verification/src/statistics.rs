//! Population statistics of the realms, read from the information page.
use vstd::prelude::*;
use crate::html::{
    groups_view, nested_texts_view, select_texts, select_within, select_within_twice,
    selected_texts, selected_within, selected_within_twice, texts_view, Element,
};
use crate::text::{
    ascii_uppercase, ascii_uppercase_exec, chars_of, contains, contains_exec, find, find_in,
    first_word, first_word_exec, last_u32, last_u32_in_list, lowercase_chars, push_all,
    same_chars, slice_of, split_on, string_from, unicode_lowercase,
};

verus! {

/// The faction shares, uptime and latency of one realm.
#[derive(Debug, Clone, Default)]
pub struct RealmStatistics {
    pub name: String,
    pub alliance: u32,
    pub horde: u32,
    pub uptime: String,
    pub latency: String,
}

/// `RealmStatistics` as plain values.
pub struct StatisticsView {
    pub name: Seq<char>,
    pub alliance: u32,
    pub horde: u32,
    pub uptime: Seq<char>,
    pub latency: Seq<char>,
}

impl View for RealmStatistics {
    type V = StatisticsView;

    open spec fn view(&self) -> StatisticsView {
        StatisticsView {
            name: self.name@,
            alliance: self.alliance,
            horde: self.horde,
            uptime: self.uptime@,
            latency: self.latency@,
        }
    }
}

/// A list of statistics as plain values.
pub open spec fn statistics_view(v: Seq<RealmStatistics>) -> Seq<StatisticsView> {
    v.map_values(|s: RealmStatistics| s@)
}

/// The share given when a faction's series cannot be read.
pub const DEFAULT_SHARE: u32 = 50;

/// The last value of the `data: [..]` list that follows the first occurrence of `faction`
/// in `block`, or `DEFAULT_SHARE` when the faction, the list or a value in it is missing.
pub open spec fn faction_value(block: Seq<char>, faction: Seq<char>) -> u32 {
    match find(block, faction) {
        None => DEFAULT_SHARE,
        Some(p) => {
            let area = block.subrange(p, block.len() as int);
            match find(area, "data:"@) {
                None => DEFAULT_SHARE,
                Some(d) => {
                    let data = area.subrange(d, area.len() as int);
                    match find(data, seq!['[']) {
                        None => DEFAULT_SHARE,
                        Some(st) => match find(data.subrange(st, data.len() as int), seq![']']) {
                            None => DEFAULT_SHARE,
                            Some(e) => match last_u32(
                                split_on(data.subrange(st + 1, st + e), ','),
                            ) {
                                Some(v) => v,
                                None => DEFAULT_SHARE,
                            },
                        },
                    }
                },
            }
        },
    }
}

/// The share of `faction` in `block`, as characters.
fn faction_value_in(block: &Vec<char>, faction: &Vec<char>) -> (r: u32)
    ensures
        r == faction_value(block@, faction@),
{
    let p = match find_in(block, faction) {
        Some(p) => p,
        None => return DEFAULT_SHARE,
    };
    let area = slice_of(block, p, block.len());
    let data_key = chars_of("data:");
    let d = match find_in(&area, &data_key) {
        Some(d) => d,
        None => return DEFAULT_SHARE,
    };
    let data = slice_of(&area, d, area.len());
    let open = vec!['['];
    assert(open@ =~= seq!['[']);
    let st = match find_in(&data, &open) {
        Some(st) => st,
        None => return DEFAULT_SHARE,
    };
    let after = slice_of(&data, st, data.len());
    let close = vec![']'];
    assert(close@ =~= seq![']']);
    let e = match find_in(&after, &close) {
        Some(e) => e,
        None => return DEFAULT_SHARE,
    };
    let values = slice_of(&data, st + 1, st + e);
    match last_u32_in_list(&values) {
        Some(v) => v,
        None => DEFAULT_SHARE,
    }
}

/// The last value listed for `faction` in `block` (see `faction_value`).
pub fn extract_faction_value(block: &str, faction: &str) -> (r: u32)
    ensures
        r == faction_value(block@, faction@),
{
    let b = chars_of(block);
    let f = chars_of(faction);
    faction_value_in(&b, &f)
}


/// The Alliance and Horde shares a script gives for the realm with statistics id `id`:
/// present when the script holds `var statdata` and the marker `<id>: {`, read from the
/// text from the first such marker on.
pub open spec fn script_shares(script: Seq<char>, id: Seq<char>) -> Option<(u32, u32)> {
    if !contains(script, "var statdata"@) {
        None
    } else {
        match find(script, id + ": {"@) {
            None => None,
            Some(p) => {
                let block = script.subrange(p, script.len() as int);
                Some((faction_value(block, "Alliance"@), faction_value(block, "Horde"@)))
            },
        }
    }
}

/// The shares for `id` given by the last script that gives any.
pub open spec fn faction_shares(scripts: Seq<Seq<char>>, id: Seq<char>) -> Option<(u32, u32)>
    decreases scripts.len(),
{
    if scripts.len() == 0 {
        None
    } else {
        match script_shares(scripts.last(), id) {
            Some(v) => Some(v),
            None => faction_shares(scripts.drop_last(), id),
        }
    }
}

/// The realm a statistics section is about: the first word of its first `span`,
/// lowercased, or nothing when it has no `span`.
pub open spec fn section_key(spans: Seq<(Seq<char>, Option<Seq<char>>)>) -> Seq<char> {
    if spans.len() > 0 {
        unicode_lowercase(first_word(spans[0].0))
    } else {
        Seq::empty()
    }
}

/// The uptime and latency a section gives: the texts of the first two `div`s of its first
/// `.stats` block, when it names a realm and that block has at least two.
pub open spec fn section_times(
    spans: Seq<(Seq<char>, Option<Seq<char>>)>,
    blocks: Seq<Seq<Seq<char>>>,
) -> Option<(Seq<char>, Seq<char>)> {
    if section_key(spans).len() > 0 && blocks.len() > 0 && blocks[0].len() >= 2 {
        Some((blocks[0][0], blocks[0][1]))
    } else {
        None
    }
}

/// The uptime and latency for realm `name` given by the last of the first `n` sections that
/// names it and gives them.
pub open spec fn realm_times(
    spans: Seq<Seq<(Seq<char>, Option<Seq<char>>)>>,
    blocks: Seq<Seq<Seq<Seq<char>>>>,
    name: Seq<char>,
    n: int,
) -> Option<(Seq<char>, Seq<char>)>
    decreases n,
{
    if n <= 0 {
        None
    } else {
        match section_times(spans[n - 1], blocks[n - 1]) {
            Some(t) if section_key(spans[n - 1]) == name => Some(t),
            _ => realm_times(spans, blocks, name, n - 1),
        }
    }
}

/// The number of statistics sections: one per element, as both selections list them.
pub open spec fn section_count(
    spans: Seq<Seq<(Seq<char>, Option<Seq<char>>)>>,
    blocks: Seq<Seq<Seq<Seq<char>>>>,
) -> int {
    if spans.len() <= blocks.len() {
        spans.len() as int
    } else {
        blocks.len() as int
    }
}

/// The statistics line of realm `name` with id `id`: present when some script gives its
/// shares; its uptime and latency are `Unknown` when no section gives them.
pub open spec fn realm_line(
    scripts: Seq<Seq<char>>,
    spans: Seq<Seq<(Seq<char>, Option<Seq<char>>)>>,
    blocks: Seq<Seq<Seq<Seq<char>>>>,
    name: Seq<char>,
    id: Seq<char>,
) -> Seq<StatisticsView> {
    match faction_shares(scripts, id) {
        None => Seq::empty(),
        Some((a, h)) => {
            let (uptime, latency) = match realm_times(
                spans,
                blocks,
                name,
                section_count(spans, blocks),
            ) {
                Some(t) => t,
                None => ("Unknown"@, "Unknown"@),
            };
            seq![
                StatisticsView {
                    name: ascii_uppercase(name),
                    alliance: a,
                    horde: h,
                    uptime,
                    latency,
                },
            ]
        },
    }
}

/// The statistics of Onyxia (id 14), Lordaeron (6), Icecrown (7) and Blackrock (10), in that
/// order, for those realms whose shares some script gives.
pub open spec fn realm_statistics(
    scripts: Seq<Seq<char>>,
    spans: Seq<Seq<(Seq<char>, Option<Seq<char>>)>>,
    blocks: Seq<Seq<Seq<Seq<char>>>>,
) -> Seq<StatisticsView> {
    realm_line(scripts, spans, blocks, "onyxia"@, "14"@) + realm_line(
        scripts,
        spans,
        blocks,
        "lordaeron"@,
        "6"@,
    ) + realm_line(scripts, spans, blocks, "icecrown"@, "7"@) + realm_line(
        scripts,
        spans,
        blocks,
        "blackrock"@,
        "10"@,
    )
}

/// The shares one script gives for `id` (see `script_shares`).
fn script_shares_exec(script: &Vec<char>, id: &Vec<char>) -> (r: Option<(u32, u32)>)
    ensures
        r == script_shares(script@, id@),
{
    let statdata = chars_of("var statdata");
    if !contains_exec(script, &statdata) {
        return None;
    }
    let mut marker = slice_of(id, 0, id.len());
    assert(marker@ =~= id@);
    let tail = chars_of(": {");
    push_all(&mut marker, &tail);
    match find_in(script, &marker) {
        None => None,
        Some(p) => {
            let block = slice_of(script, p, script.len());
            let alliance = chars_of("Alliance");
            let horde = chars_of("Horde");
            Some((faction_value_in(&block, &alliance), faction_value_in(&block, &horde)))
        },
    }
}

/// The shares for `id` from the last script that gives them.
fn faction_shares_exec(scripts: &Vec<String>, id: &Vec<char>) -> (r: Option<(u32, u32)>)
    ensures
        r == faction_shares(texts_view(scripts@), id@),
{
    let ghost all = texts_view(scripts@);
    let mut best: Option<(u32, u32)> = None;
    let mut i: usize = 0;
    while i < scripts.len()
        invariant
            i <= scripts.len(),
            all == texts_view(scripts@),
            best == faction_shares(all.subrange(0, i as int), id@),
        decreases scripts.len() - i,
    {
        let script = chars_of(scripts[i].as_str());
        assert(all.subrange(0, i + 1).drop_last() =~= all.subrange(0, i as int));
        assert(all.subrange(0, i + 1).last() == script@);
        match script_shares_exec(&script, id) {
            Some(v) => {
                best = Some(v);
            },
            None => {},
        }
        i += 1;
    }
    assert(all.subrange(0, scripts.len() as int) =~= all);
    best
}

/// The key of one section (see `section_key`).
fn section_key_exec(spans: &Vec<Element>) -> (r: Vec<char>)
    ensures
        r@ == section_key(spans@.map_values(|e: Element| crate::html::element_view(e))),
{
    if spans.len() > 0 {
        let text = chars_of(spans[0].text.as_str());
        let word = first_word_exec(&text);
        lowercase_chars(&word)
    } else {
        Vec::new()
    }
}

/// The uptime and latency of realm `name` from the last section that gives them.
fn realm_times_exec(spans: &Vec<Vec<Element>>, blocks: &Vec<Vec<Vec<String>>>, name: &Vec<char>) -> (r:
    Option<(Vec<char>, Vec<char>)>)
    ensures
        match r {
            Some((u, l)) => realm_times(
                groups_view(spans@),
                nested_texts_view(blocks@),
                name@,
                section_count(groups_view(spans@), nested_texts_view(blocks@)),
            ) == Some((u@, l@)),
            None => realm_times(
                groups_view(spans@),
                nested_texts_view(blocks@),
                name@,
                section_count(groups_view(spans@), nested_texts_view(blocks@)),
            ) is None,
        },
{
    let ghost sp = groups_view(spans@);
    let ghost bl = nested_texts_view(blocks@);
    let n: usize = if spans.len() <= blocks.len() {
        spans.len()
    } else {
        blocks.len()
    };
    let mut best: Option<(Vec<char>, Vec<char>)> = None;
    let mut i: usize = 0;
    while i < n
        invariant
            i <= n,
            n <= spans.len(),
            n <= blocks.len(),
            sp == groups_view(spans@),
            bl == nested_texts_view(blocks@),
            n == section_count(sp, bl),
            match best {
                Some((u, l)) => realm_times(sp, bl, name@, i as int) == Some((u@, l@)),
                None => realm_times(sp, bl, name@, i as int) is None,
            },
        decreases n - i,
    {
        let key = section_key_exec(&spans[i]);
        assert(sp[i as int] == spans@[i as int]@.map_values(
            |e: Element| crate::html::element_view(e),
        ));
        let block_group = &blocks[i];
        assert(bl[i as int] == texts_view_groups(block_group@));
        if key.len() > 0 && block_group.len() > 0 && block_group[0].len() >= 2 && same_chars(&key, name) {
            let uptime = chars_of(block_group[0][0].as_str());
            let latency = chars_of(block_group[0][1].as_str());
            best = Some((uptime, latency));
        }
        i += 1;
    }
    best
}

/// Groups of texts as plain values.
pub open spec fn texts_view_groups(g: Seq<Vec<String>>) -> Seq<Seq<Seq<char>>> {
    g.map_values(|t: Vec<String>| texts_view(t@))
}


/// Appends the statistics line of realm `name` with id `id` (see `realm_line`).
fn push_realm_line(
    out: &mut Vec<RealmStatistics>,
    scripts: &Vec<String>,
    spans: &Vec<Vec<Element>>,
    blocks: &Vec<Vec<Vec<String>>>,
    name: &str,
    id: &str,
)
    ensures
        statistics_view(final(out)@) == statistics_view(old(out)@) + realm_line(
            texts_view(scripts@),
            groups_view(spans@),
            nested_texts_view(blocks@),
            name@,
            id@,
        ),
{
    let name_chars = chars_of(name);
    let id_chars = chars_of(id);
    let ghost before = statistics_view(out@);
    match faction_shares_exec(scripts, &id_chars) {
        None => {
            assert(statistics_view(out@) =~= before + Seq::<StatisticsView>::empty());
        },
        Some((a, h)) => {
            let (uptime, latency) = match realm_times_exec(spans, blocks, &name_chars) {
                Some((u, l)) => (string_from(&u), string_from(&l)),
                None => (string_from(&chars_of("Unknown")), string_from(&chars_of("Unknown"))),
            };
            let upper = ascii_uppercase_exec(&name_chars);
            let line = RealmStatistics {
                name: string_from(&upper),
                alliance: a,
                horde: h,
                uptime,
                latency,
            };
            out.push(line);
            assert(statistics_view(out@) =~= before + seq![line@]);
        },
    }
}

/// The realm statistics from the texts of the page's scripts, the `span`s of each statistics
/// section and, for each section, the `div` texts of each of its `.stats` blocks.
pub fn statistics_from_sections(
    scripts: &Vec<String>,
    spans: &Vec<Vec<Element>>,
    blocks: &Vec<Vec<Vec<String>>>,
) -> (r: Vec<RealmStatistics>)
    ensures
        statistics_view(r@) == realm_statistics(
            texts_view(scripts@),
            groups_view(spans@),
            nested_texts_view(blocks@),
        ),
{
    let mut out: Vec<RealmStatistics> = Vec::new();
    assert(statistics_view(out@) =~= Seq::<StatisticsView>::empty());
    push_realm_line(&mut out, scripts, spans, blocks, "onyxia", "14");
    push_realm_line(&mut out, scripts, spans, blocks, "lordaeron", "6");
    push_realm_line(&mut out, scripts, spans, blocks, "icecrown", "7");
    push_realm_line(&mut out, scripts, spans, blocks, "blackrock", "10");
    assert(Seq::<StatisticsView>::empty() + realm_line(
        texts_view(scripts@),
        groups_view(spans@),
        nested_texts_view(blocks@),
        "onyxia"@,
        "14"@,
    ) =~= realm_line(
        texts_view(scripts@),
        groups_view(spans@),
        nested_texts_view(blocks@),
        "onyxia"@,
        "14"@,
    ));
    out
}

/// The realm statistics read from the information page `html`, or nothing when a selector
/// does not parse.
pub open spec fn page_statistics(html: Seq<char>) -> Option<Seq<StatisticsView>> {
    match (
        selected_texts(html, "script"@),
        selected_within(html, ".wm-ui-statistics"@, "span"@, "title"@),
        selected_within_twice(html, ".wm-ui-statistics"@, ".stats"@, "div"@),
    ) {
        (Some(scripts), Some(spans), Some(blocks)) => Some(
            realm_statistics(scripts, spans, blocks),
        ),
        _ => None,
    }
}

/// The realm statistics of the information page `html` (see `page_statistics`).
pub fn parse_statistics_from_html(html: &str) -> (r: Result<Vec<RealmStatistics>, String>)
    ensures
        match r {
            Ok(v) => page_statistics(html@) == Some(statistics_view(v@)),
            Err(_) => page_statistics(html@) is None,
        },
{
    let scripts = select_texts(html, "script")?;
    let spans = select_within(html, ".wm-ui-statistics", "span", "title")?;
    let blocks = select_within_twice(html, ".wm-ui-statistics", ".stats", "div")?;
    Ok(statistics_from_sections(&scripts, &spans, &blocks))
}

} // verus!
