//! Event detection and engagement classification. Consecutive snapshots are
//! diffed into discrete events — the tracked hero's death, opposing-entity
//! eliminations — and bursts of events within a trailing time window drive a
//! two-state machine between Calm and Engaged.
//!
//! An elimination counter that jumps by more than one emits one event per unit
//! of increase, all at the same timestamp.

use vstd::prelude::*;
use crate::snapshot::{GameState, Hero, spec_game_time32, spec_game_time_of, game_time_of};
use crate::text::{remove_all, remove_all_chars, str_chars, push_chars, push_dec_i64, dec_int,
    lines_view};

verus! {

broadcast use vstd::seq::Seq::lemma_push_map_commute;

/// Ghost image of the per-subject event lists: subject name and event times.
pub type EventView = Seq<(Seq<char>, Seq<i32>)>;

/// Diffs consecutive snapshots into death and elimination events and keeps a
/// Calm/Engaged state machine fed by a trailing window over those events.
pub struct TeamFightAnalyzer {
    /// Game clocks at which the tracked hero died.
    pub player_deaths: Vec<i32>,
    /// Per opposing subject, the game clocks of its eliminations.
    pub enemy_deaths: Vec<(String, Vec<i32>)>,
    /// The clock of the most recent event of either kind.
    pub last_kill_time: i32,
    /// Whether the machine is in the Engaged state.
    pub team_fight_detected: bool,
    /// The clock at which the current engagement began.
    pub team_fight_start: i32,
}

/// Ghost image of one subject's event list.
pub open spec fn subject_view(e: (String, Vec<i32>)) -> (Seq<char>, Seq<i32>) {
    (e.0@, e.1@)
}

/// Ghost image of the analyzer's per-subject event lists.
pub open spec fn deaths_view(a: TeamFightAnalyzer) -> EventView {
    a.enemy_deaths@.map_values(|e: (String, Vec<i32>)| subject_view(e))
}

/// A hero counts as alive unless the snapshot says otherwise.
pub open spec fn spec_alive(h: Hero) -> bool {
    match h.alive {
        Option::Some(b) => b,
        Option::None => true,
    }
}

/// The previous snapshot a borrowed argument stands for.
pub open spec fn spec_prev(last_state: Option<&GameState>) -> Option<GameState> {
    match last_state {
        Option::Some(s) => Option::Some(*s),
        Option::None => Option::None,
    }
}

/// Whether the tracked hero went from alive to dead between the two
/// snapshots; false when either hero section is missing.
pub open spec fn spec_death_transition(cur: GameState, last: Option<GameState>) -> bool {
    match (cur.hero, last) {
        (Option::Some(ch), Option::Some(ls)) => match ls.hero {
            Option::Some(lh) => spec_alive(lh) && !spec_alive(ch),
            Option::None => false,
        },
        _ => false,
    }
}

/// The hero death events after one update: exactly one event at the current
/// clock on an alive-to-dead transition, nothing otherwise.
pub open spec fn spec_new_player_deaths(pd: Seq<i32>, cur: GameState, last: Option<GameState>) -> Seq<
    i32,
> {
    if spec_death_transition(cur, last) {
        pd.push(spec_game_time32(cur))
    } else {
        pd
    }
}

/// The two elimination-counter lists, when both snapshots carry one.
pub open spec fn spec_kill_lists(cur: GameState, last: Option<GameState>) -> Option<
    (Seq<(String, i32)>, Seq<(String, i32)>),
> {
    match (cur.player, last) {
        (Option::Some(cp), Option::Some(ls)) => match ls.player {
            Option::Some(lp) => match (cp.kill_list, lp.kill_list) {
                (Option::Some(ck), Option::Some(lk)) => Option::Some((ck@, lk@)),
                _ => Option::None,
            },
            Option::None => Option::None,
        },
        _ => Option::None,
    }
}

/// The counter recorded for a victim identifier: the first matching entry's
/// count, or zero when the identifier is absent.
pub open spec fn kl_lookup(kl: Seq<(String, i32)>, key: Seq<char>) -> int
    decreases kl.len(),
{
    if kl.len() == 0 {
        0
    } else if kl[0].0@ == key {
        kl[0].1 as int
    } else {
        kl_lookup(kl.skip(1), key)
    }
}

/// The display label derived from a victim identifier.
pub open spec fn spec_enemy_label(id: Seq<char>) -> Seq<char> {
    "Enemy"@ + remove_all(id, "victimid_"@)
}

/// First index holding the given subject name, or -1 when absent.
pub open spec fn find_subject(v: EventView, name: Seq<char>) -> int
    decreases v.len(),
{
    if v.len() == 0 {
        -1
    } else if v[0].0 == name {
        0
    } else {
        let r = find_subject(v.skip(1), name);
        if r == -1 {
            -1
        } else {
            r + 1
        }
    }
}

proof fn lemma_find_subject(v: EventView, name: Seq<char>)
    ensures
        find_subject(v, name) == -1 ==> forall|i: int| 0 <= i < v.len() ==> v[i].0 != name,
        find_subject(v, name) != -1 ==> {
            &&& 0 <= find_subject(v, name) < v.len()
            &&& v[find_subject(v, name)].0 == name
            &&& forall|k: int| 0 <= k < find_subject(v, name) ==> v[k].0 != name
        },
    decreases v.len(),
{
    if v.len() > 0 && v[0].0 != name {
        lemma_find_subject(v.skip(1), name);
        assert forall|i: int| 1 <= i < v.len() implies v[i].0 == v.skip(1)[i - 1].0 by {}
    }
}

/// One event appended to the named subject's list, creating the subject when
/// it is new.
pub open spec fn apply_event(v: EventView, name: Seq<char>, t: i32) -> EventView {
    let i = find_subject(v, name);
    if i == -1 {
        v.push((name, seq![t]))
    } else {
        v.update(i, (v[i].0, v[i].1.push(t)))
    }
}

/// `n` events for one subject, all at the same timestamp.
pub open spec fn apply_events(v: EventView, name: Seq<char>, t: i32, n: nat) -> EventView
    decreases n,
{
    if n == 0 {
        v
    } else {
        apply_events(apply_event(v, name, t), name, t, (n - 1) as nat)
    }
}

proof fn lemma_apply_events_snoc(v: EventView, name: Seq<char>, t: i32, n: nat)
    ensures
        apply_events(v, name, t, n + 1) == apply_event(apply_events(v, name, t, n), name, t),
    decreases n,
{
    if n == 0 {
        assert(apply_events(apply_event(v, name, t), name, t, 0) == apply_event(v, name, t));
    } else {
        lemma_apply_events_snoc(apply_event(v, name, t), name, t, (n - 1) as nat);
    }
}

/// All elimination events of one update folded in: per victim identifier in
/// the current list's order, one event per unit of strict counter increase.
pub open spec fn apply_kill_diffs(
    v: EventView,
    ck: Seq<(String, i32)>,
    lk: Seq<(String, i32)>,
    t: i32,
) -> EventView
    decreases ck.len(),
{
    if ck.len() == 0 {
        v
    } else {
        let d = ck[0].1 as int - kl_lookup(lk, ck[0].0@);
        let v2 = if d > 0 {
            apply_events(v, spec_enemy_label(ck[0].0@), t, d as nat)
        } else {
            v
        };
        apply_kill_diffs(v2, ck.skip(1), lk, t)
    }
}

proof fn lemma_kill_diffs_snoc(
    v: EventView,
    ck: Seq<(String, i32)>,
    e: (String, i32),
    lk: Seq<(String, i32)>,
    t: i32,
)
    ensures
        apply_kill_diffs(v, ck.push(e), lk, t) == ({
            let d = e.1 as int - kl_lookup(lk, e.0@);
            let w = apply_kill_diffs(v, ck, lk, t);
            if d > 0 {
                apply_events(w, spec_enemy_label(e.0@), t, d as nat)
            } else {
                w
            }
        }),
    decreases ck.len(),
{
    if ck.len() == 0 {
        let emp = Seq::<(String, i32)>::empty();
        assert(ck.push(e)[0] == e);
        assert(ck.push(e).skip(1) =~= emp);
        let d = e.1 as int - kl_lookup(lk, e.0@);
        if d > 0 {
            let w2 = apply_events(v, spec_enemy_label(e.0@), t, d as nat);
            assert(apply_kill_diffs(w2, emp, lk, t) == w2);
        } else {
            assert(apply_kill_diffs(v, emp, lk, t) == v);
        }
        assert(apply_kill_diffs(v, ck, lk, t) == v);
    } else {
        assert(ck.push(e)[0] == ck[0]);
        assert(ck.push(e).skip(1) =~= ck.skip(1).push(e));
        let d0 = ck[0].1 as int - kl_lookup(lk, ck[0].0@);
        let v2 = if d0 > 0 {
            apply_events(v, spec_enemy_label(ck[0].0@), t, d0 as nat)
        } else {
            v
        };
        lemma_kill_diffs_snoc(v2, ck.skip(1), e, lk, t);
    }
}

/// The per-subject event lists after one update: unchanged unless both
/// snapshots carry counter lists, in which case the counter diffs are folded
/// in.
pub open spec fn spec_new_enemy_deaths(
    ev: EventView,
    cur: GameState,
    last: Option<GameState>,
) -> EventView {
    match spec_kill_lists(cur, last) {
        Option::Some((ck, lk)) => apply_kill_diffs(ev, ck, lk, spec_game_time32(cur)),
        Option::None => ev,
    }
}

/// Whether any elimination counter strictly increased.
pub open spec fn any_positive_diff(ck: Seq<(String, i32)>, lk: Seq<(String, i32)>) -> bool
    decreases ck.len(),
{
    if ck.len() == 0 {
        false
    } else {
        ck[0].1 as int > kl_lookup(lk, ck[0].0@) || any_positive_diff(ck.skip(1), lk)
    }
}

/// Whether the update observed any event at all.
pub open spec fn spec_any_event(cur: GameState, last: Option<GameState>) -> bool {
    spec_death_transition(cur, last) || match spec_kill_lists(cur, last) {
        Option::Some((ck, lk)) => any_positive_diff(ck, lk),
        Option::None => false,
    }
}

/// The clock of the most recent event after one update.
pub open spec fn spec_new_last_kill(old_lk: i32, cur: GameState, last: Option<GameState>) -> i32 {
    if spec_any_event(cur, last) {
        spec_game_time32(cur)
    } else {
        old_lk
    }
}

/// How many of a list of event times lie at or after a window start.
pub open spec fn count_at_least(times: Seq<i32>, start: int) -> nat
    decreases times.len(),
{
    if times.len() == 0 {
        0
    } else {
        (if times[0] as int >= start {
            1nat
        } else {
            0nat
        }) + count_at_least(times.skip(1), start)
    }
}

/// How many events over all subjects lie at or after a window start.
pub open spec fn deaths_count_in(v: EventView, start: int) -> nat
    decreases v.len(),
{
    if v.len() == 0 {
        0
    } else {
        count_at_least(v[0].1, start) + deaths_count_in(v.skip(1), start)
    }
}

/// All events — hero deaths and eliminations — within the trailing window
/// that ends at the given clock.
pub open spec fn spec_window_count(pd: Seq<i32>, ev: EventView, now: int, window: int) -> nat {
    count_at_least(pd, now - window) + deaths_count_in(ev, now - window)
}

/// The total number of events ever emitted for opposing subjects.
pub open spec fn deaths_total(v: EventView) -> nat
    decreases v.len(),
{
    if v.len() == 0 {
        0
    } else {
        v[0].1.len() + deaths_total(v.skip(1))
    }
}

/// The total number of events the analyzer has emitted.
pub open spec fn spec_event_count(a: TeamFightAnalyzer) -> nat {
    a.player_deaths@.len() + deaths_total(deaths_view(a))
}

/// The Engaged flag after one update: Calm turns Engaged when the last event
/// is under fifteen seconds old and the trailing thirty-second window holds
/// at least three events; Engaged turns Calm when fifteen seconds pass with
/// no event.
pub open spec fn spec_new_detected(
    old_detected: bool,
    pd2: Seq<i32>,
    ev2: EventView,
    lk2: i32,
    now: int,
) -> bool {
    let tsl = now - lk2 as int;
    if !old_detected && tsl < 15 {
        spec_window_count(pd2, ev2, now, 30) >= 3
    } else if old_detected && tsl >= 15 {
        false
    } else {
        old_detected
    }
}

/// The engagement start clock after one update: set to the current clock at
/// the Calm-to-Engaged transition, kept otherwise.
pub open spec fn spec_new_start(
    old_detected: bool,
    old_start: i32,
    pd2: Seq<i32>,
    ev2: EventView,
    lk2: i32,
    now: i32,
) -> i32 {
    let tsl = now as int - lk2 as int;
    if !old_detected && tsl < 15 && spec_window_count(pd2, ev2, now as int, 30) >= 3 {
        now
    } else {
        old_start
    }
}

proof fn lemma_any_diff_snoc(ck: Seq<(String, i32)>, e: (String, i32), lk: Seq<(String, i32)>)
    ensures
        any_positive_diff(ck.push(e), lk) == (any_positive_diff(ck, lk) || e.1 as int > kl_lookup(
            lk,
            e.0@,
        )),
    decreases ck.len(),
{
    if ck.len() == 0 {
        let emp = Seq::<(String, i32)>::empty();
        assert(ck.push(e)[0] == e);
        assert(ck.push(e).skip(1) =~= emp);
        assert(!any_positive_diff(emp, lk));
        assert(!any_positive_diff(ck, lk));
    } else {
        assert(ck.push(e)[0] == ck[0]);
        assert(ck.push(e).skip(1) =~= ck.skip(1).push(e));
        lemma_any_diff_snoc(ck.skip(1), e, lk);
    }
}

/// Saturating addition on counters.
fn sat_add_u64(a: u64, b: u64) -> (r: u64)
    ensures
        a + b <= u64::MAX ==> r == a + b,
        a + b > u64::MAX ==> r == u64::MAX,
{
    if a > u64::MAX - b {
        u64::MAX
    } else {
        a + b
    }
}

/// Count the event times at or after the window start.
fn count_in_list(times: &Vec<i32>, start: i64) -> (r: u64)
    ensures
        r as nat == count_at_least(times@, start as int),
{
    let n = times.len();
    let mut cnt: usize = 0;
    let mut i: usize = 0;
    proof {
        assert(times@.skip(0) =~= times@);
    }
    while i < n
        invariant
            n == times@.len(),
            i <= n,
            cnt <= i,
            cnt as nat + count_at_least(times@.skip(i as int), start as int) == count_at_least(
                times@,
                start as int,
            ),
        decreases n - i,
    {
        proof {
            assert(times@.skip(i as int)[0] == times@[i as int]);
            assert(times@.skip(i as int).skip(1) =~= times@.skip(i as int + 1));
        }
        if times[i] as i64 >= start {
            cnt += 1;
        }
        i += 1;
    }
    proof {
        assert(times@.skip(n as int) =~= Seq::<i32>::empty());
    }
    cnt as u64
}

/// Look a victim identifier up in an elimination-counter list.
fn kl_lookup_exec(kl: &Vec<(String, i32)>, key: &String) -> (r: i32)
    ensures
        r as int == kl_lookup(kl@, key@),
{
    let n = kl.len();
    let mut i: usize = 0;
    proof {
        assert(kl@.skip(0) =~= kl@);
    }
    while i < n
        invariant
            n == kl@.len(),
            i <= n,
            kl_lookup(kl@, key@) == kl_lookup(kl@.skip(i as int), key@),
        decreases n - i,
    {
        proof {
            assert(kl@.skip(i as int)[0] == kl@[i as int]);
            assert(kl@.skip(i as int).skip(1) =~= kl@.skip(i as int + 1));
        }
        if kl[i].0 == *key {
            return kl[i].1;
        }
        i += 1;
    }
    proof {
        assert(kl@.skip(n as int) =~= Seq::<(String, i32)>::empty());
    }
    0
}

impl TeamFightAnalyzer {
    /// A fresh analyzer: no events seen, Calm, clocks at zero.
    pub fn new() -> (a: Self)
        ensures
            a.player_deaths@ == Seq::<i32>::empty(),
            deaths_view(a) == Seq::<(Seq<char>, Seq<i32>)>::empty(),
            a.last_kill_time == 0,
            !a.team_fight_detected,
            a.team_fight_start == 0,
    {
        let a = TeamFightAnalyzer {
            player_deaths: Vec::new(),
            enemy_deaths: Vec::new(),
            last_kill_time: 0,
            team_fight_detected: false,
            team_fight_start: 0,
        };
        proof {
            assert(a.player_deaths@ =~= Seq::<i32>::empty());
            assert(deaths_view(a) =~= Seq::<(Seq<char>, Seq<i32>)>::empty());
        }
        a
    }

    /// The display label for a victim identifier, always available: the
    /// identifier prefix is removed and the remainder is tagged as an enemy.
    pub fn get_enemy_name_from_id(&self, victim_id: &str) -> (r: Option<String>)
        ensures
            match r {
                Option::Some(s) => s@ == spec_enemy_label(victim_id@),
                Option::None => false,
            },
    {
        let mut s = "Enemy".to_owned();
        let chars = str_chars(victim_id);
        let pat = str_chars("victimid_");
        proof {
            reveal_strlit("victimid_");
        }
        let stripped = remove_all_chars(&chars, &pat);
        push_chars(&mut s, &stripped);
        Some(s)
    }

    /// Append one elimination event for the named subject.
    fn push_enemy_death(&mut self, name: String, t: i32)
        ensures
            deaths_view(*final(self)) == apply_event(deaths_view(*old(self)), name@, t),
            final(self).player_deaths == old(self).player_deaths,
            final(self).last_kill_time == old(self).last_kill_time,
            final(self).team_fight_detected == old(self).team_fight_detected,
            final(self).team_fight_start == old(self).team_fight_start,
    {
        let n = self.enemy_deaths.len();
        let mut i: usize = 0;
        while i < n
            invariant
                n == self.enemy_deaths@.len(),
                i <= n,
                *self == *old(self),
                forall|k: int| 0 <= k < i ==> #[trigger] deaths_view(*old(self))[k].0 != name@,
            decreases n - i,
        {
            proof {
                lemma_find_subject(deaths_view(*old(self)), name@);
                assert(deaths_view(*old(self)).len() == old(self).enemy_deaths@.len());
                assert(deaths_view(*old(self))[i as int] == subject_view(
                    old(self).enemy_deaths@[i as int],
                ));
            }
            if self.enemy_deaths[i].0 == name {
                proof {
                    assert(deaths_view(*old(self))[i as int].0 == name@);
                    let r = find_subject(deaths_view(*old(self)), name@);
                    assert(r != -1);
                    if r < i as int {
                        assert(deaths_view(*old(self))[r].0 != name@);
                    }
                    if r > i as int {
                        assert(deaths_view(*old(self))[i as int].0 != name@);
                    }
                    assert(r == i as int);
                }
                let ghost before = old(self).enemy_deaths@;
                let mut entry = self.enemy_deaths.remove(i);
                entry.1.push(t);
                self.enemy_deaths.insert(i, entry);
                proof {
                    assert(self.enemy_deaths@ =~= before.update(i as int, entry));
                    assert forall|k: int| 0 <= k < self.enemy_deaths@.len() implies deaths_view(
                        *self,
                    )[k] == apply_event(deaths_view(*old(self)), name@, t)[k] by {
                        assert(deaths_view(*self)[k] == subject_view(self.enemy_deaths@[k]));
                        assert(deaths_view(*old(self))[k] == subject_view(before[k]));
                    }
                    assert(deaths_view(*final(self)) =~= apply_event(
                        deaths_view(*old(self)),
                        name@,
                        t,
                    ));
                }
                return;
            }
            i += 1;
        }
        proof {
            lemma_find_subject(deaths_view(*old(self)), name@);
            assert(deaths_view(*old(self)).len() == old(self).enemy_deaths@.len());
            assert(find_subject(deaths_view(*old(self)), name@) == -1);
        }
        let mut times: Vec<i32> = Vec::new();
        times.push(t);
        proof {
            assert(times@ =~= seq![t]);
        }
        self.enemy_deaths.push((name, times));
        proof {
            assert(deaths_view(*final(self)) =~= apply_event(deaths_view(*old(self)), name@, t));
        }
    }

    /// How many events of either kind lie in the trailing window that ends at
    /// the given clock; saturates at the counter's maximum.
    pub fn count_kills_in_window(&self, game_time: i32, window: i32) -> (r: u64)
        ensures
            ({
                let c = spec_window_count(
                    self.player_deaths@,
                    deaths_view(*self),
                    game_time as int,
                    window as int,
                );
                if c <= u64::MAX {
                    r as nat == c
                } else {
                    r == u64::MAX
                }
            }),
    {
        let start: i64 = game_time as i64 - window as i64;
        let mut total: u64 = count_in_list(&self.player_deaths, start);
        let ghost mut sofar: nat = count_at_least(self.player_deaths@, start as int);
        let n = self.enemy_deaths.len();
        let mut k: usize = 0;
        proof {
            assert(deaths_view(*self).skip(0) =~= deaths_view(*self));
        }
        while k < n
            invariant
                n == self.enemy_deaths@.len(),
                deaths_view(*self).len() == n,
                k <= n,
                start as int == game_time as int - window as int,
                sofar + deaths_count_in(deaths_view(*self).skip(k as int), start as int)
                    == spec_window_count(
                    self.player_deaths@,
                    deaths_view(*self),
                    game_time as int,
                    window as int,
                ),
                sofar <= u64::MAX ==> total as nat == sofar,
                sofar > u64::MAX ==> total == u64::MAX,
            decreases n - k,
        {
            proof {
                assert(deaths_view(*self).skip(k as int)[0] == deaths_view(*self)[k as int]);
                assert(deaths_view(*self)[k as int] == subject_view(
                    self.enemy_deaths@[k as int],
                ));
                assert(deaths_view(*self).skip(k as int).skip(1) =~= deaths_view(*self).skip(
                    k as int + 1,
                ));
            }
            let c = count_in_list(&self.enemy_deaths[k].1, start);
            total = sat_add_u64(total, c);
            proof {
                sofar = sofar + c as nat;
            }
            k += 1;
        }
        proof {
            assert(deaths_view(*self).skip(n as int) =~= Seq::<(Seq<char>, Seq<i32>)>::empty());
        }
        total
    }

    /// Feed a pair of consecutive snapshots. An alive-to-dead transition of
    /// the tracked hero emits exactly one death event at the current
    /// snapshot's clock; each elimination counter that strictly increased
    /// emits one event per unit of increase, at the same clock; and the
    /// Calm/Engaged machine steps against the trailing event window.
    pub fn update(&mut self, state: &GameState, last_state: Option<&GameState>)
        ensures
            final(self).player_deaths@ == spec_new_player_deaths(
                old(self).player_deaths@,
                *state,
                spec_prev(last_state),
            ),
            deaths_view(*final(self)) == spec_new_enemy_deaths(
                deaths_view(*old(self)),
                *state,
                spec_prev(last_state),
            ),
            final(self).last_kill_time == spec_new_last_kill(
                old(self).last_kill_time,
                *state,
                spec_prev(last_state),
            ),
            final(self).team_fight_detected == spec_new_detected(
                old(self).team_fight_detected,
                final(self).player_deaths@,
                deaths_view(*final(self)),
                final(self).last_kill_time,
                spec_game_time_of(*state),
            ),
            final(self).team_fight_start == spec_new_start(
                old(self).team_fight_detected,
                old(self).team_fight_start,
                final(self).player_deaths@,
                deaths_view(*final(self)),
                final(self).last_kill_time,
                spec_game_time32(*state),
            ),
    {
        let game_time = game_time_of(state);
        match (&state.hero, last_state) {
            (Option::Some(ch), Option::Some(ls)) => {
                match &ls.hero {
                    Option::Some(lh) => {
                        let was_alive = lh.alive.unwrap_or(true);
                        let is_alive = ch.alive.unwrap_or(true);
                        if was_alive && !is_alive {
                            self.player_deaths.push(game_time);
                            self.last_kill_time = game_time;
                        }
                    },
                    Option::None => {},
                }
            },
            _ => {},
        }
        proof {
            assert(self.player_deaths@ == spec_new_player_deaths(
                old(self).player_deaths@,
                *state,
                spec_prev(last_state),
            ));
        }
        match (&state.player, last_state) {
            (Option::Some(cp), Option::Some(ls)) => {
                match &ls.player {
                    Option::Some(lp) => {
                        match (&cp.kill_list, &lp.kill_list) {
                            (Option::Some(ck), Option::Some(lk)) => {
                                let n = ck.len();
                                let mut i: usize = 0;
                                proof {
                                    assert(ck@.take(0) =~= Seq::<(String, i32)>::empty());
                                }
                                while i < n
                                    invariant
                                        n == ck@.len(),
                                        i <= n,
                                        self.player_deaths@ == spec_new_player_deaths(
                                            old(self).player_deaths@,
                                            *state,
                                            spec_prev(last_state),
                                        ),
                                        self.team_fight_detected == old(
                                            self,
                                        ).team_fight_detected,
                                        self.team_fight_start == old(self).team_fight_start,
                                        game_time == spec_game_time32(*state),
                                        spec_kill_lists(*state, spec_prev(last_state))
                                            == Option::Some((ck@, lk@)),
                                        deaths_view(*self) == apply_kill_diffs(
                                            deaths_view(*old(self)),
                                            ck@.take(i as int),
                                            lk@,
                                            game_time,
                                        ),
                                        self.last_kill_time == if spec_death_transition(
                                            *state,
                                            spec_prev(last_state),
                                        ) || any_positive_diff(ck@.take(i as int), lk@) {
                                            game_time
                                        } else {
                                            old(self).last_kill_time
                                        },
                                    decreases n - i,
                                {
                                    let ghost prefix = ck@.take(i as int);
                                    let ghost ev_before = deaths_view(*self);
                                    let last_count = kl_lookup_exec(lk, &ck[i].0);
                                    let ghost d = ck@[i as int].1 as int - kl_lookup(
                                        lk@,
                                        ck@[i as int].0@,
                                    );
                                    if ck[i].1 > last_count {
                                        let label_opt = self.get_enemy_name_from_id(
                                            ck[i].0.as_str(),
                                        );
                                        let label = label_opt.unwrap();
                                        let diff: i64 = ck[i].1 as i64 - last_count as i64;
                                        proof {
                                            assert(diff as int == d);
                                            assert(label@ == spec_enemy_label(ck@[i as int].0@));
                                        }
                                        let mut j: i64 = 0;
                                        while j < diff
                                            invariant
                                                0 <= j <= diff,
                                                n == ck@.len(),
                                                i < n,
                                                label@ == spec_enemy_label(ck@[i as int].0@),
                                                deaths_view(*self) == apply_events(
                                                    ev_before,
                                                    label@,
                                                    game_time,
                                                    j as nat,
                                                ),
                                                self.player_deaths@ == spec_new_player_deaths(
                                                    old(self).player_deaths@,
                                                    *state,
                                                    spec_prev(last_state),
                                                ),
                                                self.last_kill_time == old(self).last_kill_time
                                                    || self.last_kill_time == game_time,
                                                self.team_fight_detected == old(
                                                    self,
                                                ).team_fight_detected,
                                                self.team_fight_start == old(
                                                    self,
                                                ).team_fight_start,
                                            decreases diff - j,
                                        {
                                            self.push_enemy_death(label.clone(), game_time);
                                            proof {
                                                lemma_apply_events_snoc(
                                                    ev_before,
                                                    label@,
                                                    game_time,
                                                    j as nat,
                                                );
                                            }
                                            j += 1;
                                        }
                                        self.last_kill_time = game_time;
                                        proof {
                                            assert(deaths_view(*self) == apply_events(
                                                ev_before,
                                                spec_enemy_label(ck@[i as int].0@),
                                                game_time,
                                                d as nat,
                                            ));
                                        }
                                    }
                                    proof {
                                        lemma_kill_diffs_snoc(
                                            deaths_view(*old(self)),
                                            prefix,
                                            ck@[i as int],
                                            lk@,
                                            game_time,
                                        );
                                        lemma_any_diff_snoc(prefix, ck@[i as int], lk@);
                                        assert(prefix.push(ck@[i as int]) =~= ck@.take(
                                            i as int + 1,
                                        ));
                                    }
                                    i += 1;
                                }
                                proof {
                                    assert(ck@.take(n as int) =~= ck@);
                                }
                            },
                            _ => {
                                proof {
                                    assert(spec_kill_lists(*state, spec_prev(last_state))
                                        is None);
                                }
                            },
                        }
                    },
                    Option::None => {},
                }
            },
            _ => {},
        }
        proof {
            assert(deaths_view(*self) == spec_new_enemy_deaths(
                deaths_view(*old(self)),
                *state,
                spec_prev(last_state),
            ));
            assert(self.last_kill_time == spec_new_last_kill(
                old(self).last_kill_time,
                *state,
                spec_prev(last_state),
            ));
        }
        let tsl: i64 = game_time as i64 - self.last_kill_time as i64;
        if !self.team_fight_detected && tsl < 15 {
            let kills = self.count_kills_in_window(game_time, 30);
            if kills >= 3 {
                self.team_fight_detected = true;
                self.team_fight_start = game_time;
            }
        } else if self.team_fight_detected && tsl >= 15 {
            self.team_fight_detected = false;
        }
    }

    /// The engagement advisory at a clock: an active-engagement report with
    /// its elapsed duration while Engaged; a developing-skirmish warning when
    /// Calm but the trailing sixty-second window holds at least two events;
    /// nothing otherwise.
    pub fn describe_team_fight_status(&self, game_time: i32) -> (out: Vec<String>)
        ensures
            lines_view(out@) == spec_fight_status(*self, game_time as int),
    {
        let mut out: Vec<String> = Vec::new();
        if self.team_fight_detected {
            out.push("TEAM FIGHT IN PROGRESS!".to_owned());
            let mut line = "  Started ".to_owned();
            push_dec_i64(&mut line, game_time as i64 - self.team_fight_start as i64);
            line.append(" seconds ago");
            out.push(line);
            proof {
                assert(lines_view(out@) =~= spec_fight_status(*self, game_time as int));
            }
        } else {
            let kills = self.count_kills_in_window(game_time, 60);
            if kills >= 2 {
                out.push("Skirmishes detected - team fight may be developing!".to_owned());
                proof {
                    assert(lines_view(out@) =~= spec_fight_status(*self, game_time as int));
                }
            } else {
                proof {
                    assert(lines_view(out@) =~= spec_fight_status(*self, game_time as int));
                }
            }
        }
        out
    }
}

/// Victim identifiers are pairwise distinct within a counter list — what it
/// means for the list to be a mapping.
pub open spec fn kl_unique(kl: Seq<(String, i32)>) -> bool {
    forall|i: int, j: int| 0 <= i < j < kl.len() ==> kl[i].0@ != kl[j].0@
}

/// The snapshot's elimination-counter list, when present, is a mapping.
pub open spec fn wf_kill_list(s: GameState) -> bool {
    match s.player {
        Option::Some(p) => match p.kill_list {
            Option::Some(kl) => kl_unique(kl@),
            Option::None => true,
        },
        Option::None => true,
    }
}

proof fn lemma_lookup_self(kl: Seq<(String, i32)>, i: int)
    requires
        kl_unique(kl),
        0 <= i < kl.len(),
    ensures
        kl_lookup(kl, kl[i].0@) == kl[i].1 as int,
    decreases i,
{
    if i > 0 {
        assert(kl[0].0@ != kl[i].0@);
        assert(kl.skip(1)[i - 1] == kl[i]);
        assert(kl_unique(kl.skip(1))) by {
            assert forall|a: int, b: int| 0 <= a < b < kl.skip(1).len() implies kl.skip(1)[a].0@
                != kl.skip(1)[b].0@ by {
                assert(kl.skip(1)[a] == kl[a + 1]);
                assert(kl.skip(1)[b] == kl[b + 1]);
            }
        }
        lemma_lookup_self(kl.skip(1), i - 1);
    }
}

proof fn lemma_kill_diffs_zero(
    v: EventView,
    ck: Seq<(String, i32)>,
    lk: Seq<(String, i32)>,
    t: i32,
)
    requires
        forall|i: int| 0 <= i < ck.len() ==> ck[i].1 as int <= kl_lookup(lk, #[trigger] ck[i].0@),
    ensures
        apply_kill_diffs(v, ck, lk, t) == v,
        !any_positive_diff(ck, lk),
    decreases ck.len(),
{
    if ck.len() > 0 {
        assert forall|i: int| 0 <= i < ck.skip(1).len() implies ck.skip(1)[i].1 as int
            <= kl_lookup(lk, #[trigger] ck.skip(1)[i].0@) by {
            assert(ck.skip(1)[i] == ck[i + 1]);
        }
        lemma_kill_diffs_zero(v, ck.skip(1), lk, t);
    }
}

/// Law: feeding one snapshot as both the current and the previous member of a
/// pair emits no events — the tracked hero's life state cannot have changed
/// and no elimination counter increased — so neither the hero death list, nor
/// the per-subject elimination lists, nor the last-event clock change. The
/// snapshot's counter list must be a genuine mapping (unique victim
/// identifiers).
pub proof fn lemma_duplicate_snapshot_no_events(
    pd: Seq<i32>,
    ev: EventView,
    last_kill: i32,
    s: GameState,
)
    requires
        wf_kill_list(s),
    ensures
        spec_new_player_deaths(pd, s, Option::Some(s)) == pd,
        spec_new_enemy_deaths(ev, s, Option::Some(s)) == ev,
        spec_new_last_kill(last_kill, s, Option::Some(s)) == last_kill,
{
    assert(!spec_death_transition(s, Option::Some(s)));
    match spec_kill_lists(s, Option::Some(s)) {
        Option::Some((ck, lk)) => {
            assert(ck == lk);
            assert forall|i: int| 0 <= i < ck.len() implies ck[i].1 as int <= kl_lookup(
                lk,
                #[trigger] ck[i].0@,
            ) by {
                lemma_lookup_self(ck, i);
            }
            lemma_kill_diffs_zero(ev, ck, lk, spec_game_time32(s));
        },
        Option::None => {},
    }
}

/// The engagement advisory lines for an analyzer state at a clock.
pub open spec fn spec_fight_status(a: TeamFightAnalyzer, now: int) -> Seq<Seq<char>> {
    if a.team_fight_detected {
        seq![
            "TEAM FIGHT IN PROGRESS!"@,
            "  Started "@ + dec_int(now - a.team_fight_start as int) + " seconds ago"@,
        ]
    } else if spec_window_count(a.player_deaths@, deaths_view(a), now, 60) >= 2 {
        seq!["Skirmishes detected - team fight may be developing!"@]
    } else {
        Seq::empty()
    }
}

} // verus!
