//! What holds of the dashboard across its operations.
use vstd::prelude::*;
use crate::app::{
    delta_upto, last_index_of, next_selection, player_delta, players_upto, previous_selection,
    App,
};
use crate::app::updated;
use crate::news::{article_entry, articles_upto, latest_news, nth_text, NEWS_LIMIT};
use crate::statistics::{
    faction_value, realm_statistics, script_shares, RealmStatistics, DEFAULT_SHARE,
};
use crate::view::{highlight_of, highlight_of_lower, statistics_row_of, Highlight};
use crate::status::{realm_statuses, row_status, player_count, StatusView};
use crate::table::lookup;
use crate::text::{
    all_digits, contains, decimal, digit_char, digits_value, eq_ignore_ascii_case,
    only_digits, parse_u32, is_digit, digit_value, lemma_find_first, occurs_at, replace_char,
    trim, trim_end, trim_start, unicode_lowercase,
};

verus! {

/// Moving down the news and then up again comes back to the entry that was selected.
pub proof fn law_next_then_previous(i: usize, len: nat)
    requires
        i < len,
        len <= usize::MAX,
    ensures
        previous_selection(next_selection(Some(i), len), len) == Some(i),
{
}

/// Moving up the news and then down again comes back to the entry that was selected.
pub proof fn law_previous_then_next(i: usize, len: nat)
    requires
        i < len,
        len <= usize::MAX,
    ensures
        next_selection(previous_selection(Some(i), len), len) == Some(i),
{
}

/// Moving down a non-empty news list always selects an entry of it; moving up keeps a
/// selection that was within it within it.
pub proof fn law_selection_in_range(sel: Option<usize>, len: nat)
    requires
        len > 0,
        len <= usize::MAX,
    ensures
        next_selection(sel, len) matches Some(j) && j < len,
        (sel matches Some(i) && i < len) ==> (previous_selection(sel, len) matches Some(j) && j
            < len),
{
}

/// The selection after `k` moves down.
pub open spec fn moved_down(sel: Option<usize>, len: nat, k: nat) -> Option<usize>
    decreases k,
{
    if k == 0 {
        sel
    } else {
        next_selection(moved_down(sel, len, (k - 1) as nat), len)
    }
}

/// Moving down a list of `len` entries `len` times comes back to where it started.
pub proof fn law_moving_down_cycles(i: usize, len: nat)
    requires
        i < len,
        len <= usize::MAX,
    ensures
        moved_down(Some(i), len, len) == Some(i),
{
    lemma_moved_down(i, len, len);
    assert((i + len) % (len as int) == i as int) by (nonlinear_arith)
        requires
            i < len,
    ;
}

/// After `k` moves down from entry `i`, the entry `(i + k) % len` is selected.
proof fn lemma_moved_down(i: usize, len: nat, k: nat)
    requires
        i < len,
        len <= usize::MAX,
    ensures
        moved_down(Some(i), len, k) == Some(((i + k) % (len as int)) as usize),
    decreases k,
{
    if k > 0 {
        lemma_moved_down(i, len, (k - 1) as nat);
        let prev = (i + k - 1) % (len as int);
        assert(0 <= prev < len) by (nonlinear_arith)
            requires
                prev == (i + k - 1) % (len as int),
                len > 0,
        ;
        if prev == len - 1 {
            assert((i + k) % (len as int) == 0) by (nonlinear_arith)
                requires
                    prev == (i + k - 1) % (len as int),
                    prev == len - 1,
                    len > 0,
            ;
        } else {
            assert((i + k) % (len as int) == prev + 1) by (nonlinear_arith)
                requires
                    prev == (i + k - 1) % (len as int),
                    prev < len - 1,
                    0 <= prev,
                    len > 0,
            ;
        }
    } else {
        assert((i as int) % (len as int) == i as int) by (nonlinear_arith)
            requires
                i < len,
        ;
    }
}

/// A tick starts a refresh only when none is under way, and once it has, a second tick
/// starts none until the refresh has been taken in.
pub proof fn law_one_refresh_at_a_time(a: App)
    ensures
        (App { is_loading: true, ..a }).is_loading,
{
}

/// When a realm is listed once in a refresh and a count was on record for it, its change
/// becomes the new count less the old one, and its count the new one.
pub proof fn law_delta_is_difference(
    prev: Seq<(Seq<char>, u32)>,
    deltas: Seq<(Seq<char>, i32)>,
    realms: Seq<(Seq<char>, u32)>,
    i: int,
    before: u32,
)
    requires
        0 <= i < realms.len(),
        forall|j: int| 0 <= j < realms.len() && j != i ==> realms[j].0 != realms[i].0,
        lookup(prev, realms[i].0) == Some(before),
    ensures
        players_upto(prev, realms, realms[i].0, realms.len() as int) == Some(realms[i].1),
        delta_upto(prev, deltas, realms, realms[i].0, realms.len() as int) == Some(
            player_delta(realms[i].1, before) as i32,
        ),
{
    lemma_last_index_single(realms, i, realms.len() as int);
    lemma_last_index_single(realms, i, i);
}

/// A realm that a refresh does not list keeps its count and change.
pub proof fn law_unlisted_realm_kept(
    prev: Seq<(Seq<char>, u32)>,
    deltas: Seq<(Seq<char>, i32)>,
    realms: Seq<(Seq<char>, u32)>,
    key: Seq<char>,
)
    requires
        forall|j: int| 0 <= j < realms.len() ==> realms[j].0 != key,
    ensures
        players_upto(prev, realms, key, realms.len() as int) == lookup(prev, key),
        delta_upto(prev, deltas, realms, key, realms.len() as int) == lookup(deltas, key),
{
    lemma_last_index_absent(realms, key, realms.len() as int);
}

/// The last index below `n` of the name at `i`, when no other index holds it.
proof fn lemma_last_index_single(realms: Seq<(Seq<char>, u32)>, i: int, n: int)
    requires
        0 <= i < realms.len(),
        n <= realms.len(),
        forall|j: int| 0 <= j < realms.len() && j != i ==> realms[j].0 != realms[i].0,
    ensures
        last_index_of(realms, realms[i].0, n) == if i < n {
            Some(i)
        } else {
            None
        },
    decreases n,
{
    if n > 0 && n - 1 != i {
        lemma_last_index_single(realms, i, n - 1);
    }
}

/// No index below `n` holds `key`.
proof fn lemma_last_index_absent(realms: Seq<(Seq<char>, u32)>, key: Seq<char>, n: int)
    requires
        n <= realms.len(),
        forall|j: int| 0 <= j < realms.len() ==> realms[j].0 != key,
    ensures
        last_index_of(realms, key, n) is None,
    decreases n,
{
    if n > 0 {
        lemma_last_index_absent(realms, key, n - 1);
    }
}

/// The news list is never empty, holds at most `NEWS_LIMIT` entries, and links every entry
/// to `#`.
pub proof fn law_news_shape(
    titles: Seq<Seq<(Seq<char>, Option<Seq<char>>)>>,
    contents: Seq<Seq<char>>,
)
    ensures
        latest_news(titles, contents).len() >= 1,
        latest_news(titles, contents).len() <= 17,
        forall|k: int|
            0 <= k < latest_news(titles, contents).len() ==> (#[trigger] latest_news(
                titles,
                contents,
            )[k]).1 == "#"@,
{
    let n = if titles.len() <= NEWS_LIMIT {
        titles.len() as int
    } else {
        NEWS_LIMIT as int
    };
    lemma_articles_shape(titles, contents, n);
}

/// The first `n` articles give at most `n` entries, each linked to `#`.
proof fn lemma_articles_shape(
    titles: Seq<Seq<(Seq<char>, Option<Seq<char>>)>>,
    contents: Seq<Seq<char>>,
    n: int,
)
    requires
        0 <= n,
    ensures
        articles_upto(titles, contents, n).len() <= n,
        forall|k: int|
            0 <= k < articles_upto(titles, contents, n).len() ==> (#[trigger] articles_upto(
                titles,
                contents,
                n,
            )[k]).1 == "#"@,
    decreases n,
{
    if n > 0 {
        lemma_articles_shape(titles, contents, n - 1);
        let prev = articles_upto(titles, contents, n - 1);
        let e = article_entry(titles, contents, n - 1);
        assert(articles_upto(titles, contents, n) == prev + e);
        assert forall|k: int|
            0 <= k < (prev + e).len() implies (#[trigger] (prev + e)[k]).1 == "#"@ by {
            if k >= prev.len() {
                assert((prev + e)[k] == e[k - prev.len()]);
            } else {
                assert((prev + e)[k] == prev[k]);
            }
        }
    }
}

/// No status is listed for a blank name or for the table's `Total` and `Realm` rows, and
/// each state is `Online`, `Offline` or `Unknown`.
pub proof fn law_status_rows(rows: Seq<Seq<(Seq<char>, Option<Seq<char>>)>>)
    ensures
        forall|k: int|
            0 <= k < realm_statuses(rows).len() ==> {
                let s = #[trigger] realm_statuses(rows)[k];
                &&& s.name.len() > 0
                &&& !eq_ignore_ascii_case(s.name, "Total"@)
                &&& !eq_ignore_ascii_case(s.name, "Realm"@)
                &&& (s.status == "Online"@ || s.status == "Offline"@ || s.status == "Unknown"@)
            },
    decreases rows.len(),
{
    if rows.len() > 0 {
        law_status_rows(rows.drop_last());
        let prev = realm_statuses(rows.drop_last());
        let e = match row_status(rows.last()) {
            Some(s) => seq![s],
            None => Seq::<StatusView>::empty(),
        };
        assert(realm_statuses(rows) == prev + e);
        assert forall|k: int| 0 <= k < (prev + e).len() implies {
            let s = #[trigger] (prev + e)[k];
            &&& s.name.len() > 0
            &&& !eq_ignore_ascii_case(s.name, "Total"@)
            &&& !eq_ignore_ascii_case(s.name, "Realm"@)
            &&& (s.status == "Online"@ || s.status == "Offline"@ || s.status == "Unknown"@)
        } by {
            if k >= prev.len() {
                assert((prev + e)[k] == e[k - prev.len()]);
            } else {
                assert((prev + e)[k] == prev[k]);
            }
        }
    }
}

/// At most one statistics line is given per realm: at most four in all.
pub proof fn law_statistics_bounded(
    scripts: Seq<Seq<char>>,
    spans: Seq<Seq<(Seq<char>, Option<Seq<char>>)>>,
    blocks: Seq<Seq<Seq<Seq<char>>>>,
)
    ensures
        realm_statistics(scripts, spans, blocks).len() <= 4,
{
}

/// A faction that a block does not mention gets the default share.
pub proof fn law_missing_faction_default(block: Seq<char>, faction: Seq<char>)
    requires
        !contains(block, faction),
    ensures
        faction_value(block, faction) == DEFAULT_SHARE,
{
}

/// The decimal digits of a number are all digits, and read back as that number.
proof fn lemma_decimal_digits(n: nat)
    ensures
        all_digits(decimal(n)),
        decimal(n).len() > 0,
        digits_value(decimal(n)) == n,
    decreases n,
{
    if n < 10 {
        let d = decimal(n);
        assert(d.drop_last() =~= Seq::<char>::empty());
        assert(d.last() == digit_char(n));
        assert(digit_char(n) as u32 == n + 48);
        assert(digit_value(d.last()) == n);
        assert(digits_value(d.drop_last()) == 0);
    } else {
        lemma_decimal_digits(n / 10);
        let d = decimal(n);
        let q = decimal(n / 10);
        assert(d.drop_last() =~= q);
        assert(digit_char(n % 10) as u32 == n % 10 + 48);
        assert(d.last() == digit_char(n % 10));
        assert(digit_value(d.last()) == n % 10);
        assert forall|i: int| 0 <= i < d.len() implies is_digit(d[i]) by {
            if i < q.len() {
                assert(d[i] == q[i]);
            }
        }
        assert(digits_value(q) * 10 + n % 10 == n) by (nonlinear_arith)
            requires
                digits_value(q) == n / 10,
        ;
    }
}

/// A player count shown in decimal reads back as the same count.
pub proof fn law_count_roundtrip(n: u32)
    ensures
        parse_u32(decimal(n as nat)) == Some(n),
        player_count(decimal(n as nat)) == n,
{
    lemma_decimal_digits(n as nat);
    let d = decimal(n as nat);
    assert(d[0] != '+');
    lemma_only_digits_of_digits(d);
}

/// Keeping the digits of a string of digits keeps all of it.
proof fn lemma_only_digits_of_digits(d: Seq<char>)
    requires
        all_digits(d),
    ensures
        only_digits(d) == d,
    decreases d.len(),
{
    if d.len() > 0 {
        assert(all_digits(d.drop_last()));
        lemma_only_digits_of_digits(d.drop_last());
        assert(d.drop_last().push(d.last()) =~= d);
    }
}


/// A script holding `var statdata` gives, for realm id `id`, the shares read from the text
/// that starts at the first occurrence of the key `<id>: {`: earlier text that holds `<id>:`
/// without the brace, such as a time stamp `16:03` before the block keyed `6: {`, is passed
/// over.
pub proof fn law_shares_read_at_keyed_block(script: Seq<char>, id: Seq<char>, p: int)
    requires
        contains(script, "var statdata"@),
        occurs_at(script, id + seq![':', ' ', '{'], p),
        forall|j: int| 0 <= j < p ==> !occurs_at(script, id + seq![':', ' ', '{'], j),
    ensures
        script_shares(script, id) == Some(
            (
                faction_value(script.subrange(p, script.len() as int), "Alliance"@),
                faction_value(script.subrange(p, script.len() as int), "Horde"@),
            ),
        ),
{
    reveal_strlit(": {");
    let key = id + seq![':', ' ', '{'];
    assert(id + ": {"@ =~= key);
    lemma_find_first(script, key);
}

/// A script in which the key `<id>: {` does not occur gives no shares for `id`.
pub proof fn law_no_key_no_shares(script: Seq<char>, id: Seq<char>)
    requires
        forall|j: int| !occurs_at(script, id + seq![':', ' ', '{'], j),
    ensures
        script_shares(script, id) is None,
{
    reveal_strlit(": {");
    let key = id + seq![':', ' ', '{'];
    assert(id + ": {"@ =~= key);
    lemma_find_first(script, key);
}

/// An article with a title shows `[date] title`, a line break, then its body: the trimmed
/// content block of the same index with no-break spaces made spaces, or `...` exactly when
/// there are not that many content blocks; its link is `#`.
pub proof fn law_article_shows_its_content(
    titles: Seq<Seq<(Seq<char>, Option<Seq<char>>)>>,
    contents: Seq<Seq<char>>,
    i: int,
)
    requires
        0 <= i < titles.len(),
        trim(nth_text(titles[i], 0)).len() > 0,
    ensures
        i < contents.len() ==> article_entry(titles, contents, i) == seq![
            (
                seq!['['] + trim(nth_text(titles[i], 1)) + seq![']', ' '] + trim(
                    nth_text(titles[i], 0),
                ) + seq!['\n'] + trim(replace_char(trim(contents[i]), '\u{A0}', ' ')),
                seq!['#'],
            ),
        ],
        i >= contents.len() ==> article_entry(titles, contents, i) == seq![
            (
                seq!['['] + trim(nth_text(titles[i], 1)) + seq![']', ' '] + trim(
                    nth_text(titles[i], 0),
                ) + seq!['\n'] + seq!['.', '.', '.'],
                seq!['#'],
            ),
        ],
{
    reveal_strlit("[");
    reveal_strlit("] ");
    reveal_strlit("\n");
    reveal_strlit("...");
    reveal_strlit("#");
    let dots = seq!['.', '.', '.'];
    assert("..."@ =~= dots);
    assert("["@ =~= seq!['[']);
    assert("] "@ =~= seq![']', ' ']);
    assert("\n"@ =~= seq!['\n']);
    assert("#"@ =~= seq!['#']);
    assert(trim_start(dots) == dots);
    assert(trim_end(dots) == dots);
    assert(trim(dots) == dots);
    let title = nth_text(titles[i], 0);
    let date = nth_text(titles[i], 1);
    if i < contents.len() {
        let body = replace_char(trim(contents[i]), '\u{A0}', ' ');
        assert(crate::news::article_body(contents, i) == body);
        assert(crate::news::article_text(title, date, body) =~= seq!['['] + trim(date) + seq![
            ']',
            ' ',
        ] + trim(title) + seq!['\n'] + trim(body));
    } else {
        assert(crate::news::article_body(contents, i) == dots);
        assert(crate::news::article_text(title, date, dots) =~= seq!['['] + trim(date) + seq![
            ']',
            ' ',
        ] + trim(title) + seq!['\n'] + dots);
    }
}

/// Taking in a refresh keeps a news selection that was made: only when nothing was selected
/// does the first entry get selected.
pub proof fn law_refresh_keeps_selection(old: App, new: App, payload: crate::app::UpdatePayload)
    requires
        updated(old, new, payload),
        old.news_selected is Some,
    ensures
        new.news_selected == old.news_selected,
{
}

/// A news text whose lowercase holds `maintenance`, `offline`, `all realms will be taken
/// offline`, `down`, `shutdown` or `unavailable` is critical; one that holds none of them is
/// not.
pub proof fn law_critical_words(lower: Seq<char>)
    ensures
        (contains(lower, "maintenance"@) || contains(lower, "offline"@) || contains(
            lower,
            "all realms will be taken offline"@,
        ) || contains(lower, "down"@) || contains(lower, "shutdown"@) || contains(
            lower,
            "unavailable"@,
        )) <==> highlight_of_lower(lower) == Highlight::Critical,
        (contains(unicode_lowercase(lower), "unavailable"@) || contains(
            unicode_lowercase(lower),
            "maintenance"@,
        )) ==> highlight_of(lower) == Highlight::Critical,
{
    let keys = crate::view::critical_keywords();
    assert(keys[0] == "maintenance"@);
    assert(keys[1] == "offline"@);
    assert(keys[2] == "all realms will be taken offline"@);
    assert(keys[3] == "down"@);
    assert(keys[4] == "shutdown"@);
    assert(keys[5] == "unavailable"@);
    let u = unicode_lowercase(lower);
    let ukeys = crate::view::critical_keywords();
    assert(ukeys[0] == "maintenance"@);
    assert(ukeys[5] == "unavailable"@);
}

/// A news text whose lowercase holds no critical word but holds `gold squish`, `nerf`,
/// `exploit`, `wipe`, `reset`, `rollback` or `issue` is a warning; one that holds none of
/// the words at all is plain.
pub proof fn law_warning_words(lower: Seq<char>)
    requires
        highlight_of_lower(lower) != Highlight::Critical,
    ensures
        (contains(lower, "gold squish"@) || contains(lower, "nerf"@) || contains(
            lower,
            "exploit"@,
        ) || contains(lower, "wipe"@) || contains(lower, "reset"@) || contains(
            lower,
            "rollback"@,
        ) || contains(lower, "issue"@)) <==> highlight_of_lower(lower) == Highlight::Warning,
{
    let keys = crate::view::warning_keywords();
    assert(keys[0] == "gold squish"@);
    assert(keys[1] == "nerf"@);
    assert(keys[2] == "exploit"@);
    assert(keys[3] == "wipe"@);
    assert(keys[4] == "reset"@);
    assert(keys[5] == "rollback"@);
    assert(keys[6] == "issue"@);
}

/// The statistics row of a realm shows its name, its shares followed by `%`, and its own
/// uptime and latency, each in its own column.
pub proof fn law_statistics_row_columns(s: RealmStatistics)
    ensures
        statistics_row_of(s).0 == s.name@,
        statistics_row_of(s).1 == decimal(s.alliance as nat) + seq!['%'],
        statistics_row_of(s).2 == decimal(s.horde as nat) + seq!['%'],
        statistics_row_of(s).3 == s.uptime@,
        statistics_row_of(s).4 == s.latency@,
{
    reveal_strlit("%");
}


/// When every article has a title, the news list holds one entry per article, up to 17.
pub proof fn law_news_count(
    titles: Seq<Seq<(Seq<char>, Option<Seq<char>>)>>,
    contents: Seq<Seq<char>>,
)
    requires
        titles.len() > 0,
        forall|i: int| 0 <= i < titles.len() ==> trim(nth_text(#[trigger] titles[i], 0)).len() > 0,
    ensures
        latest_news(titles, contents).len() == if titles.len() <= 17 {
            titles.len() as int
        } else {
            17
        },
{
    let n = if titles.len() <= NEWS_LIMIT {
        titles.len() as int
    } else {
        NEWS_LIMIT as int
    };
    lemma_articles_count(titles, contents, n);
}

/// Articles that all have titles give one entry each.
proof fn lemma_articles_count(
    titles: Seq<Seq<(Seq<char>, Option<Seq<char>>)>>,
    contents: Seq<Seq<char>>,
    n: int,
)
    requires
        0 <= n <= titles.len(),
        forall|i: int| 0 <= i < titles.len() ==> trim(nth_text(#[trigger] titles[i], 0)).len() > 0,
    ensures
        articles_upto(titles, contents, n).len() == n,
    decreases n,
{
    if n > 0 {
        lemma_articles_count(titles, contents, n - 1);
        assert(trim(nth_text(titles[n - 1], 0)).len() > 0);
    }
}

} // verus!
