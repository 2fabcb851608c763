//! The dashboard's state and how events change it.
use vstd::prelude::*;
use crate::statistics::RealmStatistics;
use crate::status::RealmStatus;
use crate::table::{entries_view, get_entry, keys_distinct, lookup, set_entry};

verus! {

/// What one refresh brought back: the realm statuses and statistics or why they could not be
/// had, the news or why it could not be had, and whether the logon server answered.
pub struct UpdatePayload {
    pub warmane_res: Result<(Vec<RealmStatus>, Vec<RealmStatistics>), String>,
    pub news_res: Result<Vec<(String, String)>, String>,
    pub logon_up: bool,
}

/// The dashboard's state.
pub struct App {
    pub realm_statuses: Vec<RealmStatus>,
    pub realm_statistics: Vec<RealmStatistics>,
    pub latest_news: Vec<(String, String)>,
    /// The news entry that is selected, if any.
    pub news_selected: Option<usize>,
    /// The change of each realm's player count at its last refresh.
    pub player_deltas: Vec<(String, i32)>,
    /// The player count of each realm at its last refresh.
    pub prev_players: Vec<(String, u32)>,
    pub should_quit: bool,
    pub last_error: Option<String>,
    pub is_loading: bool,
    pub logon_up: bool,
}

/// The names and player counts of a list of statuses.
pub open spec fn realm_counts(st: Seq<RealmStatus>) -> Seq<(Seq<char>, u32)> {
    st.map_values(|s: RealmStatus| (s.name@, s.online_players))
}

/// A player count read as an `i32` (`n as i32`: counts above `i32::MAX` wrap to negative).
pub open spec fn as_i32(n: u32) -> int {
    if n <= i32::MAX {
        n as int
    } else {
        n - 0x1_0000_0000
    }
}

/// The change from `before` to `now` players, as `now as i32 - before as i32`.
pub open spec fn player_delta(now: u32, before: u32) -> int {
    as_i32(now) - as_i32(before)
}

/// The last index below `n` of a realm named `key`.
pub open spec fn last_index_of(realms: Seq<(Seq<char>, u32)>, key: Seq<char>, n: int) -> Option<
    int,
>
    decreases n,
{
    if n <= 0 {
        None
    } else if realms[n - 1].0 == key {
        Some(n - 1)
    } else {
        last_index_of(realms, key, n - 1)
    }
}

/// The player count on record for `key` once the first `n` realms are taken in: that of the
/// last of them named `key`, or the one on record before.
pub open spec fn players_upto(
    prev: Seq<(Seq<char>, u32)>,
    realms: Seq<(Seq<char>, u32)>,
    key: Seq<char>,
    n: int,
) -> Option<u32> {
    match last_index_of(realms, key, n) {
        Some(i) => Some(realms[i].1),
        None => lookup(prev, key),
    }
}

/// The change on record for `key` once the first `n` realms are taken in: for the last of
/// them named `key`, its count less the count on record just before it, if there was one;
/// otherwise the change on record before.
pub open spec fn delta_upto(
    prev: Seq<(Seq<char>, u32)>,
    deltas: Seq<(Seq<char>, i32)>,
    realms: Seq<(Seq<char>, u32)>,
    key: Seq<char>,
    n: int,
) -> Option<i32> {
    match last_index_of(realms, key, n) {
        None => lookup(deltas, key),
        Some(i) => match players_upto(prev, realms, key, i) {
            Some(p) => Some(player_delta(realms[i].1, p) as i32),
            None => lookup(deltas, key),
        },
    }
}

/// Taking in the realms never computes a change outside the `i32` range.
pub open spec fn counts_fit(prev: Seq<(Seq<char>, u32)>, realms: Seq<(Seq<char>, u32)>) -> bool {
    forall|i: int|
        0 <= i < realms.len() ==> match #[trigger] players_upto(prev, realms, realms[i].0, i) {
            Some(p) => i32::MIN <= player_delta(realms[i].1, p) <= i32::MAX,
            None => true,
        }
}

/// Taking in the payload never computes a change outside the `i32` range.
pub open spec fn payload_fits(prev: Seq<(String, u32)>, payload: UpdatePayload) -> bool {
    match payload.warmane_res {
        Ok((st, _)) => counts_fit(entries_view(prev), realm_counts(st@)),
        Err(_) => true,
    }
}

/// `n as i32` is `as_i32(n)`.
proof fn lemma_as_i32(n: u32)
    ensures
        (n as i32) as int == as_i32(n),
{
    if n <= 0x7fff_ffff {
        assert((n as i32) as i64 == n as i64) by (bit_vector)
            requires
                n <= 0x7fff_ffffu32,
        ;
    } else {
        assert((n as i32) as i64 == (n as i64) - 0x1_0000_0000i64) by (bit_vector)
            requires
                n > 0x7fff_ffffu32,
        ;
    }
}


/// Records the realms' player counts in order: each realm that had a count on record gets
/// the change from it, and its count becomes the new one.
fn absorb_counts(prev: &mut Vec<(String, u32)>, deltas: &mut Vec<(String, i32)>, realms: &Vec<RealmStatus>)
    requires
        counts_fit(entries_view(old(prev)@), realm_counts(realms@)),
    ensures
        keys_distinct(entries_view(old(prev)@)) ==> keys_distinct(entries_view(final(prev)@)),
        keys_distinct(entries_view(old(deltas)@)) ==> keys_distinct(entries_view(final(deltas)@)),
        forall|k: Seq<char>|
            #![trigger lookup(entries_view(final(prev)@), k)]
            lookup(entries_view(final(prev)@), k) == players_upto(
                entries_view(old(prev)@),
                realm_counts(realms@),
                k,
                realms.len() as int,
            ),
        forall|k: Seq<char>|
            #![trigger lookup(entries_view(final(deltas)@), k)]
            lookup(entries_view(final(deltas)@), k) == delta_upto(
                entries_view(old(prev)@),
                entries_view(old(deltas)@),
                realm_counts(realms@),
                k,
                realms.len() as int,
            ),
{
    let ghost p0 = entries_view(prev@);
    let ghost d0 = entries_view(deltas@);
    let ghost r = realm_counts(realms@);
    let mut i: usize = 0;
    while i < realms.len()
        invariant
            i <= realms.len(),
            r == realm_counts(realms@),
            counts_fit(p0, r),
            keys_distinct(p0) ==> keys_distinct(entries_view(prev@)),
            keys_distinct(d0) ==> keys_distinct(entries_view(deltas@)),
            forall|k: Seq<char>|
                #![trigger lookup(entries_view(prev@), k)]
                lookup(entries_view(prev@), k) == players_upto(p0, r, k, i as int),
            forall|k: Seq<char>|
                #![trigger lookup(entries_view(deltas@), k)]
                lookup(entries_view(deltas@), k) == delta_upto(p0, d0, r, k, i as int),
        decreases realms.len() - i,
    {
        let name = &realms[i].name;
        let now = realms[i].online_players;
        assert(r[i as int] == (name@, now));
        let ghost prev_before = entries_view(prev@);
        let ghost deltas_before = entries_view(deltas@);
        match get_entry(prev, name) {
            Some(before) => {
                proof {
                    lemma_as_i32(now);
                    lemma_as_i32(before);
                    assert(players_upto(p0, r, r[i as int].0, i as int) == Some(before));
                }
                let d = (now as i32) - (before as i32);
                set_entry(deltas, name, d);
            },
            None => {},
        }
        set_entry(prev, name, now);
        assert forall|k: Seq<char>|
            #![trigger lookup(entries_view(prev@), k)]
            lookup(entries_view(prev@), k) == players_upto(p0, r, k, i + 1) by {
            if k != name@ {
                assert(lookup(entries_view(prev@), k) == lookup(prev_before, k));
            }
        }
        assert forall|k: Seq<char>|
            #![trigger lookup(entries_view(deltas@), k)]
            lookup(entries_view(deltas@), k) == delta_upto(p0, d0, r, k, i + 1) by {
            if k != name@ {
                assert(lookup(entries_view(deltas@), k) == lookup(deltas_before, k));
            } else {
                assert(lookup(prev_before, k) == players_upto(p0, r, k, i as int));
            }
        }
        i += 1;
    }
}


/// The selection after moving down a list of `len` entries: the next entry, back to the
/// first from the last (or from past the end), the first when nothing was selected; the
/// selection stays as it is when the list is empty.
pub open spec fn next_selection(sel: Option<usize>, len: nat) -> Option<usize> {
    if len == 0 {
        sel
    } else {
        match sel {
            Some(i) => if i >= len - 1 {
                Some(0)
            } else {
                Some((i + 1) as usize)
            },
            None => Some(0),
        }
    }
}

/// The selection after moving up a list of `len` entries: the previous entry, round to the
/// last from the first, the first when nothing was selected; the selection stays as it is
/// when the list is empty.
pub open spec fn previous_selection(sel: Option<usize>, len: nat) -> Option<usize> {
    if len == 0 {
        sel
    } else {
        match sel {
            Some(i) => if i == 0 {
                Some((len - 1) as usize)
            } else {
                Some((i - 1) as usize)
            },
            None => Some(0),
        }
    }
}

/// A key that the dashboard reads.
#[derive(Debug, Clone, Copy, PartialEq, Eq, Structural)]
pub enum Key {
    Char(char),
    Up,
    Down,
    Other,
}

/// What the dashboard is told: a key press, a refresh tick, or what a refresh brought back.
pub enum AppEvent {
    Input(Key),
    Tick,
    Update(UpdatePayload),
}

/// What the dashboard asks to be done after an event.
#[derive(Debug, Clone, Copy, PartialEq, Eq, Structural)]
pub enum Command {
    Nothing,
    StartUpdate,
}

/// `new` is `old` after taking in `payload` (see `App::apply_update`).
pub open spec fn updated(old: App, new: App, payload: UpdatePayload) -> bool {
    &&& !new.is_loading
    &&& new.logon_up == payload.logon_up
    &&& new.last_error is None
    &&& new.should_quit == old.should_quit
    &&& match payload.warmane_res {
        Ok((st, stats)) => {
            &&& new.realm_statuses@ == st@
            &&& new.realm_statistics@ == stats@
            &&& forall|k: Seq<char>|
                #![trigger lookup(entries_view(new.prev_players@), k)]
                lookup(entries_view(new.prev_players@), k) == players_upto(
                    entries_view(old.prev_players@),
                    realm_counts(st@),
                    k,
                    st@.len() as int,
                )
            &&& forall|k: Seq<char>|
                #![trigger lookup(entries_view(new.player_deltas@), k)]
                lookup(entries_view(new.player_deltas@), k) == delta_upto(
                    entries_view(old.prev_players@),
                    entries_view(old.player_deltas@),
                    realm_counts(st@),
                    k,
                    st@.len() as int,
                )
        },
        Err(_) => {
            &&& new.realm_statuses == old.realm_statuses
            &&& new.realm_statistics == old.realm_statistics
            &&& new.prev_players == old.prev_players
            &&& new.player_deltas == old.player_deltas
        },
    }
    &&& match payload.news_res {
        Ok(news) => {
            &&& new.latest_news@ == news@
            &&& new.news_selected == if old.news_selected is None && news@.len() > 0 {
                Some(0usize)
            } else {
                old.news_selected
            }
        },
        Err(_) => {
            &&& new.latest_news == old.latest_news
            &&& new.news_selected == old.news_selected
        },
    }
}

impl App {
    /// Each table holds at most one entry per realm.
    pub open spec fn wf(self) -> bool {
        keys_distinct(entries_view(self.prev_players@)) && keys_distinct(
            entries_view(self.player_deltas@),
        )
    }

    /// `self` with another news selection.
    pub open spec fn with_selection(self, sel: Option<usize>) -> App {
        App { news_selected: sel, ..self }
    }

    /// The state before any refresh: nothing shown, nothing selected, nothing loading.
    pub fn new() -> (r: App)
        ensures
            r.realm_statuses@.len() == 0,
            r.realm_statistics@.len() == 0,
            r.latest_news@.len() == 0,
            r.news_selected is None,
            r.wf(),
            r.player_deltas@.len() == 0,
            r.prev_players@.len() == 0,
            !r.should_quit,
            r.last_error is None,
            !r.is_loading,
            !r.logon_up,
    {
        App {
            realm_statuses: Vec::new(),
            realm_statistics: Vec::new(),
            latest_news: Vec::new(),
            news_selected: None,
            player_deltas: Vec::new(),
            prev_players: Vec::new(),
            should_quit: false,
            last_error: None,
            is_loading: false,
            logon_up: false,
        }
    }

    /// Selects the next news entry (see `next_selection`).
    pub fn next_news(&mut self)
        ensures
            *final(self) == old(self).with_selection(
                next_selection(old(self).news_selected, old(self).latest_news@.len()),
            ),
    {
        if self.latest_news.len() == 0 {
            return;
        }
        let i = match self.news_selected {
            Some(i) => if i >= self.latest_news.len() - 1 {
                0
            } else {
                i + 1
            },
            None => 0,
        };
        self.news_selected = Some(i);
    }

    /// Selects the previous news entry (see `previous_selection`).
    pub fn previous_news(&mut self)
        ensures
            *final(self) == old(self).with_selection(
                previous_selection(old(self).news_selected, old(self).latest_news@.len()),
            ),
    {
        if self.latest_news.len() == 0 {
            return;
        }
        let i = match self.news_selected {
            Some(i) => if i == 0 {
                self.latest_news.len() - 1
            } else {
                i - 1
            },
            None => 0,
        };
        self.news_selected = Some(i);
    }

    /// Starts a refresh unless one is under way: answers whether the caller should fetch.
    pub fn trigger_update(&mut self) -> (start: bool)
        ensures
            start == !old(self).is_loading,
            *final(self) == (App { is_loading: true, ..*old(self) }),
    {
        if self.is_loading {
            return false;
        }
        self.is_loading = true;
        true
    }

    /// The change in players recorded for realm `name`.
    pub fn player_delta(&self, name: &String) -> (r: Option<i32>)
        ensures
            r == lookup(entries_view(self.player_deltas@), name@),
    {
        get_entry(&self.player_deltas, name)
    }

    /// The player count recorded for realm `name`.
    pub fn previous_players(&self, name: &String) -> (r: Option<u32>)
        ensures
            r == lookup(entries_view(self.prev_players@), name@),
    {
        get_entry(&self.prev_players, name)
    }
}


/// A copy of a list of counts.
fn copy_counts(v: &Vec<(String, u32)>) -> (r: Vec<(String, u32)>)
    ensures
        entries_view(r@) == entries_view(v@),
{
    let mut r: Vec<(String, u32)> = Vec::new();
    let mut i: usize = 0;
    while i < v.len()
        invariant
            i <= v.len(),
            entries_view(r@) == entries_view(v@).subrange(0, i as int),
        decreases v.len() - i,
    {
        let name: String = v[i].0.clone();
        let ghost before = r@;
        r.push((name, v[i].1));
        assert(r@ == before.push((name, v@[i as int].1)));
        assert(entries_view(r@) =~= entries_view(before).push(entries_view(v@)[i as int]));
        assert(entries_view(v@).subrange(0, i + 1) =~= entries_view(v@).subrange(0, i as int).push(entries_view(v@)[i as int]));
        i += 1;
        assert(entries_view(r@) =~= entries_view(v@).subrange(0, i as int));
    }
    assert(entries_view(v@).subrange(0, v.len() as int) =~= entries_view(v@));
    r
}

/// Whether taking in the realms' counts keeps every change within the `i32` range.
fn counts_fit_exec(prev: &Vec<(String, u32)>, realms: &Vec<RealmStatus>) -> (r: bool)
    ensures
        r == counts_fit(entries_view(prev@), realm_counts(realms@)),
{
    let ghost p0 = entries_view(prev@);
    let ghost r = realm_counts(realms@);
    let mut sim = copy_counts(prev);
    let mut i: usize = 0;
    while i < realms.len()
        invariant
            i <= realms.len(),
            r == realm_counts(realms@),
            p0 == entries_view(prev@),
            forall|k: Seq<char>|
                #![trigger lookup(entries_view(sim@), k)]
                lookup(entries_view(sim@), k) == players_upto(p0, r, k, i as int),
            forall|j: int|
                0 <= j < i ==> match #[trigger] players_upto(p0, r, r[j].0, j) {
                    Some(p) => i32::MIN <= player_delta(r[j].1, p) <= i32::MAX,
                    None => true,
                },
        decreases realms.len() - i,
    {
        let name = &realms[i].name;
        let now = realms[i].online_players;
        assert(r[i as int] == (name@, now));
        let ghost sim_before = entries_view(sim@);
        match get_entry(&sim, name) {
            Some(before) => {
                proof {
                    lemma_as_i32(now);
                    lemma_as_i32(before);
                }
                let d: i64 = (now as i32) as i64 - (before as i32) as i64;
                if d < i32::MIN as i64 || d > i32::MAX as i64 {
                    assert(players_upto(p0, r, r[i as int].0, i as int) == Some(before));
                    return false;
                }
            },
            None => {},
        }
        set_entry(&mut sim, name, now);
        assert forall|k: Seq<char>|
            #![trigger lookup(entries_view(sim@), k)]
            lookup(entries_view(sim@), k) == players_upto(p0, r, k, i + 1) by {
            if k != name@ {
                assert(lookup(entries_view(sim@), k) == lookup(sim_before, k));
            }
        }
        i += 1;
    }
    true
}

impl App {
    /// Whether taking in `payload` keeps every player change within the `i32` range, as
    /// `apply_update` requires.
    pub fn update_fits(&self, payload: &UpdatePayload) -> (r: bool)
        ensures
            r == payload_fits(self.prev_players@, *payload),
    {
        match &payload.warmane_res {
            Ok((st, _)) => counts_fit_exec(&self.prev_players, st),
            Err(_) => true,
        }
    }

    /// Takes in what a refresh brought back: loading ends, the logon state is the payload's,
    /// the error is cleared; on realm data, the statuses and statistics are replaced and each
    /// realm's player count and change are recorded; on news, the news is replaced and the
    /// first entry selected when nothing was and there is one.
    pub fn apply_update(&mut self, payload: UpdatePayload)
        requires
            payload_fits(old(self).prev_players@, payload),
        ensures
            updated(*old(self), *final(self), payload),
            old(self).wf() ==> final(self).wf(),
            !final(self).is_loading,
            final(self).logon_up == payload.logon_up,
            final(self).last_error is None,
            final(self).should_quit == old(self).should_quit,
            old(self).news_selected is Some
                ==> final(self).news_selected == old(self).news_selected,
            old(self).news_selected is None ==> (final(self).news_selected is Some <==> (
            payload.news_res matches Ok(n) && n@.len() > 0)),
            old(self).news_selected is None && final(self).news_selected is Some
                ==> final(self).news_selected == Some(0usize),
            payload.news_res matches Ok(n) ==> final(self).latest_news@ == n@,
            payload.news_res is Err ==> final(self).latest_news == old(self).latest_news,
            payload.warmane_res matches Ok((st, stats)) ==> final(self).realm_statuses@ == st@
                && final(self).realm_statistics@ == stats@,
            payload.warmane_res is Err ==> final(self).realm_statuses == old(self).realm_statuses
                && final(self).realm_statistics == old(self).realm_statistics
                && final(self).prev_players == old(self).prev_players
                && final(self).player_deltas == old(self).player_deltas,
    {
        self.is_loading = false;
        self.logon_up = payload.logon_up;
        self.last_error = None;
        let ghost p = payload;
        match payload.warmane_res {
            Ok((statuses, stats)) => {
                absorb_counts(&mut self.prev_players, &mut self.player_deltas, &statuses);
                self.realm_statuses = statuses;
                self.realm_statistics = stats;
            },
            Err(_) => {},
        }
        match payload.news_res {
            Ok(news) => {
                self.latest_news = news;
                if self.news_selected.is_none() && self.latest_news.len() > 0 {
                    self.news_selected = Some(0);
                }
            },
            Err(_) => {},
        }
    }

    /// Takes in one event: `q` asks to quit, the arrow keys move the news selection, a tick
    /// starts a refresh unless one is under way, and a payload is taken in.
    pub fn handle_event(&mut self, event: AppEvent) -> (c: Command)
        requires
            event matches AppEvent::Update(p) ==> payload_fits(old(self).prev_players@, p),
        ensures
            old(self).wf() ==> final(self).wf(),
            match event {
                AppEvent::Input(Key::Char(ch)) => c == Command::Nothing && *final(self) == if ch
                    == 'q' {
                    App { should_quit: true, ..*old(self) }
                } else {
                    *old(self)
                },
                AppEvent::Input(Key::Down) => c == Command::Nothing && *final(self) == old(
                    self,
                ).with_selection(
                    next_selection(old(self).news_selected, old(self).latest_news@.len()),
                ),
                AppEvent::Input(Key::Up) => c == Command::Nothing && *final(self) == old(
                    self,
                ).with_selection(
                    previous_selection(old(self).news_selected, old(self).latest_news@.len()),
                ),
                AppEvent::Input(Key::Other) => c == Command::Nothing && *final(self) == *old(
                    self,
                ),
                AppEvent::Tick => {
                    &&& (c == Command::StartUpdate) == !old(self).is_loading
                    &&& (c == Command::Nothing) == old(self).is_loading
                    &&& *final(self) == (App { is_loading: true, ..*old(self) })
                },
                AppEvent::Update(p) => c == Command::Nothing && updated(
                    *old(self),
                    *final(self),
                    p,
                ),
            },
    {
        match event {
            AppEvent::Input(key) => {
                match key {
                    Key::Char(ch) => {
                        if ch == 'q' {
                            self.should_quit = true;
                        }
                    },
                    Key::Down => self.next_news(),
                    Key::Up => self.previous_news(),
                    Key::Other => {},
                }
                Command::Nothing
            },
            AppEvent::Tick => {
                if self.trigger_update() {
                    Command::StartUpdate
                } else {
                    Command::Nothing
                }
            },
            AppEvent::Update(p) => {
                self.apply_update(p);
                Command::Nothing
            },
        }
    }
}

} // verus!
