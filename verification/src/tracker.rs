//! Bounded per-entity position histories built from minimap sightings, with
//! movement descriptions and linear extrapolation of future positions.
//!
//! Each tracked entity (keyed by display name) carries an ordered sequence of
//! (game-clock, position) samples: insertion-ordered, non-decreasing in the
//! clock, and capped at a fixed maximum length with oldest-first eviction.
//! A snapshot whose clock does not advance past the last processed clock is
//! discarded whole.

use vstd::prelude::*;
use vstd::math::abs;
use crate::snapshot::{GameState, MinimapObject, spec_game_time32, spec_game_time_of,
    spec_enemy_team_id, game_time_of, enemy_team_id};
use crate::text::{spec_hero_name, format_hero_name, str_eq, dec_int, div_trunc, div_trunc_i64,
    push_dec_i64, lines_view};

verus! {

broadcast use vstd::seq::Seq::lemma_push_map_commute;

/// The longest position history kept per entity; older samples are evicted.
pub const HISTORY_CAP: usize = 100;

/// Ghost image of the tracked entities: display name and samples, in order.
pub type TrackView = Seq<(Seq<char>, Seq<(i32, (i32, i32))>)>;

/// Tracks where opposing entities have been seen, entity by entity.
pub struct EnemyPositionTracker {
    /// Per display name, the ordered (game-clock, position) samples.
    pub positions: Vec<(String, Vec<(i32, (i32, i32))>)>,
    /// The clock of the last snapshot that was processed (not discarded).
    pub last_game_time: i32,
}

/// Ghost image of one tracked entity.
pub open spec fn entity_view(e: (String, Vec<(i32, (i32, i32))>)) -> (
    Seq<char>,
    Seq<(i32, (i32, i32))>,
) {
    (e.0@, e.1@)
}

/// One entity's history is well formed relative to a clock bound: non-empty,
/// within the cap, non-decreasing in time, and nothing later than the bound.
pub open spec fn wf_history(h: Seq<(i32, (i32, i32))>, last: int) -> bool {
    &&& 1 <= h.len() <= HISTORY_CAP
    &&& forall|i: int, j: int| 0 <= i <= j < h.len() ==> h[i].0 as int <= h[j].0 as int
    &&& forall|i: int| 0 <= i < h.len() ==> h[i].0 as int <= last
}

/// A whole view is well formed: names are distinct and every history is
/// well formed under the clock bound.
pub open spec fn wf_view(v: TrackView, last: int) -> bool {
    &&& forall|i: int, j: int| 0 <= i < j < v.len() ==> v[i].0 != v[j].0
    &&& forall|i: int| 0 <= i < v.len() ==> wf_history(#[trigger] v[i].1, last)
}

/// First index holding the given name, or -1 when absent.
pub open spec fn find_name(v: TrackView, name: Seq<char>) -> int
    decreases v.len(),
{
    if v.len() == 0 {
        -1
    } else if v[0].0 == name {
        0
    } else {
        let r = find_name(v.skip(1), name);
        if r == -1 {
            -1
        } else {
            r + 1
        }
    }
}

proof fn lemma_find_name(v: TrackView, name: Seq<char>)
    ensures
        find_name(v, name) == -1 ==> forall|i: int| 0 <= i < v.len() ==> v[i].0 != name,
        find_name(v, name) != -1 ==> {
            &&& 0 <= find_name(v, name) < v.len()
            &&& v[find_name(v, name)].0 == name
            &&& forall|k: int| 0 <= k < find_name(v, name) ==> v[k].0 != name
        },
    decreases v.len(),
{
    if v.len() > 0 && v[0].0 != name {
        lemma_find_name(v.skip(1), name);
        assert forall|i: int| 1 <= i < v.len() implies v[i].0 == v.skip(1)[i - 1].0 by {}
    }
}

/// A history with one more sample, evicting the oldest when over the cap.
pub open spec fn push_capped(h: Seq<(i32, (i32, i32))>, t: i32, p: (i32, i32)) -> Seq<
    (i32, (i32, i32)),
> {
    let h2 = h.push((t, p));
    if h2.len() > HISTORY_CAP {
        h2.skip(1)
    } else {
        h2
    }
}

/// One sighting folded into the view: append to the named entity's history,
/// or start a fresh one-sample history for a new name.
pub open spec fn apply_sighting(v: TrackView, name: Seq<char>, t: i32, p: (i32, i32)) -> TrackView {
    let i = find_name(v, name);
    if i == -1 {
        v.push((name, seq![(t, p)]))
    } else {
        v.update(i, (name, push_capped(v[i].1, t, p)))
    }
}

/// All sightings of one snapshot folded into the view, left to right.
pub open spec fn apply_sightings(
    v: TrackView,
    ss: Seq<(Seq<char>, (i32, i32))>,
    t: i32,
) -> TrackView
    decreases ss.len(),
{
    if ss.len() == 0 {
        v
    } else {
        apply_sightings(apply_sighting(v, ss[0].0, t, ss[0].1), ss.skip(1), t)
    }
}

proof fn lemma_apply_sightings_snoc(
    v: TrackView,
    ss: Seq<(Seq<char>, (i32, i32))>,
    x: (Seq<char>, (i32, i32)),
    t: i32,
)
    ensures
        apply_sightings(v, ss.push(x), t) == apply_sighting(
            apply_sightings(v, ss, t),
            x.0,
            t,
            x.1,
        ),
    decreases ss.len(),
{
    if ss.len() == 0 {
        let e = Seq::<(Seq<char>, (i32, i32))>::empty();
        assert(ss.push(x)[0] == x);
        assert(ss.push(x).skip(1) =~= e);
        assert(apply_sightings(apply_sighting(v, x.0, t, x.1), e, t) == apply_sighting(
            v,
            x.0,
            t,
            x.1,
        ));
        assert(apply_sightings(v, ss, t) == v);
    } else {
        assert(ss.push(x)[0] == ss[0]);
        assert(ss.push(x).skip(1) =~= ss.skip(1).push(x));
        lemma_apply_sightings_snoc(apply_sighting(v, ss[0].0, t, ss[0].1), ss.skip(1), x, t);
    }
}

proof fn lemma_apply_sighting_wf(v: TrackView, name: Seq<char>, t: i32, p: (i32, i32))
    requires
        wf_view(v, t as int),
    ensures
        wf_view(apply_sighting(v, name, t, p), t as int),
{
    lemma_find_name(v, name);
    let i = find_name(v, name);
    if i != -1 {
        let h = v[i].1;
        let h2 = push_capped(h, t, p);
        let hp = h.push((t, p));
        assert(wf_history(h2, t as int)) by {
            assert(forall|a: int| 0 <= a < hp.len() ==> hp[a].0 as int <= t as int);
            assert(forall|a: int, b: int|
                0 <= a <= b < hp.len() ==> hp[a].0 as int <= hp[b].0 as int);
            if hp.len() > HISTORY_CAP {
                assert(forall|a: int, b: int|
                    0 <= a <= b < hp.skip(1).len() ==> hp.skip(1)[a].0 as int <= hp.skip(1)[b].0
                        as int);
            }
        }
        let v2 = apply_sighting(v, name, t, p);
        assert forall|a: int, b: int| 0 <= a < b < v2.len() implies v2[a].0 != v2[b].0 by {
            assert(v2[a].0 == v[a].0);
            assert(v2[b].0 == v[b].0);
        }
    }
}

/// The sightings relevant to tracking in a run of minimap entries: hostile
/// icons of the given team with a known name, as (display name, position).
pub open spec fn spec_sightings(entries: Seq<(String, MinimapObject)>, team: int) -> Seq<
    (Seq<char>, (i32, i32)),
>
    decreases entries.len(),
{
    if entries.len() == 0 {
        Seq::empty()
    } else {
        let o = entries[0].1;
        let rest = spec_sightings(entries.skip(1), team);
        match o.name {
            Option::Some(n) => {
                if o.image@ == "minimap_enemyicon"@ && o.team as int == team {
                    seq![(spec_hero_name(n@), (o.xpos, o.ypos))] + rest
                } else {
                    rest
                }
            },
            Option::None => rest,
        }
    }
}

/// The sightings one minimap entry contributes on its own.
pub open spec fn spec_sighting_of(e: (String, MinimapObject), team: int) -> Seq<
    (Seq<char>, (i32, i32)),
> {
    match e.1.name {
        Option::Some(n) => {
            if e.1.image@ == "minimap_enemyicon"@ && e.1.team as int == team {
                seq![(spec_hero_name(n@), (e.1.xpos, e.1.ypos))]
            } else {
                Seq::empty()
            }
        },
        Option::None => Seq::empty(),
    }
}

proof fn lemma_sightings_snoc(
    entries: Seq<(String, MinimapObject)>,
    e: (String, MinimapObject),
    team: int,
)
    ensures
        spec_sightings(entries.push(e), team) == spec_sightings(entries, team) + spec_sighting_of(
            e,
            team,
        ),
    decreases entries.len(),
{
    if entries.len() == 0 {
        let emp = Seq::<(String, MinimapObject)>::empty();
        assert(entries.push(e)[0] == e);
        assert(entries.push(e).skip(1) =~= emp);
        assert(spec_sightings(emp, team) == Seq::<(Seq<char>, (i32, i32))>::empty());
        assert(spec_sightings(entries, team) == Seq::<(Seq<char>, (i32, i32))>::empty());
        assert(spec_sightings(entries.push(e), team) =~= spec_sightings(entries, team)
            + spec_sighting_of(e, team));
    } else {
        assert(entries.push(e)[0] == entries[0]);
        assert(entries.push(e).skip(1) =~= entries.skip(1).push(e));
        lemma_sightings_snoc(entries.skip(1), e, team);
        assert(spec_sightings(entries.push(e), team) =~= spec_sightings(entries, team)
            + spec_sighting_of(e, team));
    }
}

/// The sightings a whole snapshot contributes: its minimap entries filtered
/// to hostile icons of the snapshot's opposing team.
pub open spec fn spec_enemy_sightings(s: GameState) -> Seq<(Seq<char>, (i32, i32))> {
    match s.minimap {
        Option::Some(mm) => spec_sightings(mm@, spec_enemy_team_id(s)),
        Option::None => Seq::empty(),
    }
}

/// Ghost image of one collected sighting.
pub open spec fn sighting_view(e: (String, (i32, i32))) -> (Seq<char>, (i32, i32)) {
    (e.0@, e.1)
}

/// Ghost image of a run of collected sightings.
pub open spec fn sightings_view(v: Seq<(String, (i32, i32))>) -> Seq<(Seq<char>, (i32, i32))> {
    v.map_values(|e: (String, (i32, i32))| sighting_view(e))
}

/// The ghost image of the tracker's histories.
pub open spec fn view_of(t: EnemyPositionTracker) -> TrackView {
    t.positions@.map_values(|e: (String, Vec<(i32, (i32, i32))>)| entity_view(e))
}

/// Compass direction of a displacement between two consecutive samples, one
/// of the four cardinal points; ties go to the horizontal axis.
pub open spec fn spec_movement_direction(dx: int, dy: int) -> Seq<char> {
    if abs(dx) >= abs(dy) {
        if dx > 0 {
            "East"@
        } else {
            "West"@
        }
    } else {
        if dy > 0 {
            "North"@
        } else {
            "South"@
        }
    }
}

/// The "last seen" line for one entity.
pub open spec fn spec_seen_line(name: Seq<char>, ts: int, x: int, y: int) -> Seq<char> {
    "  "@ + name + ": Last seen "@ + dec_int(ts) + " seconds ago at ("@ + dec_int(x) + ", "@
        + dec_int(y) + ")"@
}

/// The report lines one entity contributes: nothing when its latest sample is
/// not within sixty seconds of the clock; otherwise a "last seen" line, plus a
/// movement direction line when at least two samples exist.
pub open spec fn spec_movement_lines_of(name: Seq<char>, h: Seq<(i32, (i32, i32))>, now: int) -> Seq<
    Seq<char>,
> {
    if h.len() == 0 {
        Seq::empty()
    } else {
        let last = h[h.len() - 1];
        let ts = now - last.0 as int;
        if 0 <= ts <= 60 {
            let line1 = spec_seen_line(name, ts, last.1.0 as int, last.1.1 as int);
            if h.len() >= 2 {
                let prev = h[h.len() - 2];
                seq![
                    line1,
                    "    Moving "@ + spec_movement_direction(
                        last.1.0 - prev.1.0,
                        last.1.1 - prev.1.1,
                    ),
                ]
            } else {
                seq![line1]
            }
        } else {
            Seq::empty()
        }
    }
}

/// The movement report over a whole view, entity by entity in order.
pub open spec fn spec_movement_lines(v: TrackView, now: int) -> Seq<Seq<char>>
    decreases v.len(),
{
    if v.len() == 0 {
        Seq::empty()
    } else {
        spec_movement_lines_of(v[0].0, v[0].1, now) + spec_movement_lines(v.skip(1), now)
    }
}

proof fn lemma_movement_lines_snoc(
    v: TrackView,
    e: (Seq<char>, Seq<(i32, (i32, i32))>),
    now: int,
)
    ensures
        spec_movement_lines(v.push(e), now) == spec_movement_lines(v, now)
            + spec_movement_lines_of(e.0, e.1, now),
    decreases v.len(),
{
    if v.len() == 0 {
        let emp = Seq::<(Seq<char>, Seq<(i32, (i32, i32))>)>::empty();
        assert(v.push(e)[0] == e);
        assert(v.push(e).skip(1) =~= emp);
        assert(spec_movement_lines(emp, now) == Seq::<Seq<char>>::empty());
        assert(spec_movement_lines(v, now) == Seq::<Seq<char>>::empty());
        assert(spec_movement_lines(v.push(e), now) =~= spec_movement_lines(v, now)
            + spec_movement_lines_of(e.0, e.1, now));
    } else {
        assert(v.push(e)[0] == v[0]);
        assert(v.push(e).skip(1) =~= v.skip(1).push(e));
        lemma_movement_lines_snoc(v.skip(1), e, now);
        assert(spec_movement_lines(v.push(e), now) =~= spec_movement_lines(v, now)
            + spec_movement_lines_of(e.0, e.1, now));
    }
}

/// Whether a history admits a prediction at the given clock: at least two
/// samples, the latest within thirty seconds of the clock, and a strictly
/// positive spacing between the two most recent samples.
pub open spec fn spec_predicts(h: Seq<(i32, (i32, i32))>, now: int) -> bool {
    &&& h.len() >= 2
    &&& 0 <= now - h[h.len() - 1].0 as int <= 30
    &&& h[h.len() - 1].0 as int > h[h.len() - 2].0 as int
}

/// Linear extrapolation from the two most recent samples: the displacement
/// scaled by (time since last sample) / (time between samples), truncating.
pub open spec fn spec_prediction(h: Seq<(i32, (i32, i32))>, now: int) -> (int, int)
    recommends
        spec_predicts(h, now),
{
    let last = h[h.len() - 1];
    let prev = h[h.len() - 2];
    let ts = now - last.0 as int;
    let dt = last.0 as int - prev.0 as int;
    let dx = last.1.0 as int - prev.1.0 as int;
    let dy = last.1.1 as int - prev.1.1 as int;
    (last.1.0 as int + div_trunc(dx * ts, dt), last.1.1 as int + div_trunc(dy * ts, dt))
}

/// The predictions over a whole view, entity by entity in order.
pub open spec fn spec_predictions(v: TrackView, now: int) -> Seq<(Seq<char>, (int, int))>
    decreases v.len(),
{
    if v.len() == 0 {
        Seq::empty()
    } else {
        let rest = spec_predictions(v.skip(1), now);
        if spec_predicts(v[0].1, now) {
            seq![(v[0].0, spec_prediction(v[0].1, now))] + rest
        } else {
            rest
        }
    }
}

proof fn lemma_predictions_snoc(v: TrackView, e: (Seq<char>, Seq<(i32, (i32, i32))>), now: int)
    ensures
        spec_predictions(v.push(e), now) == spec_predictions(v, now) + (if spec_predicts(
            e.1,
            now,
        ) {
            seq![(e.0, spec_prediction(e.1, now))]
        } else {
            Seq::<(Seq<char>, (int, int))>::empty()
        }),
    decreases v.len(),
{
    let tail = if spec_predicts(e.1, now) {
        seq![(e.0, spec_prediction(e.1, now))]
    } else {
        Seq::<(Seq<char>, (int, int))>::empty()
    };
    if v.len() == 0 {
        let emp = Seq::<(Seq<char>, Seq<(i32, (i32, i32))>)>::empty();
        assert(v.push(e)[0] == e);
        assert(v.push(e).skip(1) =~= emp);
        assert(spec_predictions(emp, now) == Seq::<(Seq<char>, (int, int))>::empty());
        assert(spec_predictions(v, now) == Seq::<(Seq<char>, (int, int))>::empty());
        assert(spec_predictions(v.push(e), now) =~= spec_predictions(v, now) + tail);
    } else {
        assert(v.push(e)[0] == v[0]);
        assert(v.push(e).skip(1) =~= v.skip(1).push(e));
        lemma_predictions_snoc(v.skip(1), e, now);
        assert(spec_predictions(v.push(e), now) =~= spec_predictions(v, now) + tail);
    }
}

/// Ghost image of a run of predictions with machine-integer coordinates.
pub open spec fn predictions_view(v: Seq<(String, (i64, i64))>) -> Seq<(Seq<char>, (int, int))> {
    v.map_values(|e: (String, (i64, i64))| (e.0@, (e.1.0 as int, e.1.1 as int)))
}

/// Build the "last seen" line for one entity.
fn seen_line(name: &String, ts: i64, x: i32, y: i32) -> (r: String)
    requires
        0 <= ts <= 60,
    ensures
        r@ == spec_seen_line(name@, ts as int, x as int, y as int),
{
    let mut s = "  ".to_owned();
    s.append(name.as_str());
    s.append(": Last seen ");
    push_dec_i64(&mut s, ts);
    s.append(" seconds ago at (");
    push_dec_i64(&mut s, x as i64);
    s.append(", ");
    push_dec_i64(&mut s, y as i64);
    s.append(")");
    proof {
        assert(s@ =~= spec_seen_line(name@, ts as int, x as int, y as int));
    }
    s
}

/// Name the compass direction of a displacement.
fn movement_direction(dx: i64, dy: i64) -> (r: &'static str)
    requires
        i64::MIN < dx,
        i64::MIN < dy,
    ensures
        r@ == spec_movement_direction(dx as int, dy as int),
{
    let adx: i64 = if dx < 0 {
        -dx
    } else {
        dx
    };
    let ady: i64 = if dy < 0 {
        -dy
    } else {
        dy
    };
    if adx >= ady {
        if dx > 0 {
            "East"
        } else {
            "West"
        }
    } else {
        if dy > 0 {
            "North"
        } else {
            "South"
        }
    }
}

impl EnemyPositionTracker {
    /// The tracker's histories as ghost data.
    pub open spec fn view(&self) -> TrackView {
        view_of(*self)
    }

    /// The tracker's invariant: distinct names, and every history non-empty,
    /// within the cap, non-decreasing in time, nothing later than the last
    /// processed clock.
    pub open spec fn wf(&self) -> bool {
        wf_view(self.view(), self.last_game_time as int)
    }

    /// A fresh tracker with no histories and the clock at zero.
    pub fn new() -> (t: Self)
        ensures
            t.view() == Seq::<(Seq<char>, Seq<(i32, (i32, i32))>)>::empty(),
            t.last_game_time == 0,
            t.wf(),
    {
        let t = EnemyPositionTracker { positions: Vec::new(), last_game_time: 0 };
        proof {
            assert(t.view() =~= Seq::<(Seq<char>, Seq<(i32, (i32, i32))>)>::empty());
        }
        t
    }

    /// Fold one sighting into the histories.
    fn record_sighting(&mut self, name: String, t: i32, p: (i32, i32))
        requires
            wf_view(old(self).view(), t as int),
        ensures
            final(self).view() == apply_sighting(old(self).view(), name@, t, p),
            final(self).last_game_time == old(self).last_game_time,
            wf_view(final(self).view(), t as int),
    {
        proof {
            lemma_find_name(old(self).view(), name@);
            lemma_apply_sighting_wf(old(self).view(), name@, t, p);
        }
        let n = self.positions.len();
        let mut i: usize = 0;
        while i < n
            invariant
                n == self.positions@.len(),
                i <= n,
                *self == *old(self),
                wf_view(old(self).view(), t as int),
                forall|k: int| 0 <= k < i ==> #[trigger] old(self).view()[k].0 != name@,
            decreases n - i,
        {
            proof {
                lemma_find_name(old(self).view(), name@);
                lemma_apply_sighting_wf(old(self).view(), name@, t, p);
                assert(old(self).view().len() == old(self).positions@.len());
                assert(old(self).view()[i as int] == entity_view(old(self).positions@[i as int]));
            }
            if self.positions[i].0 == name {
                proof {
                    assert(old(self).view()[i as int].0 == name@);
                    let r = find_name(old(self).view(), name@);
                    assert(r != -1);
                    if r < i as int {
                        assert(old(self).view()[r].0 != name@);
                    }
                    if r > i as int {
                        assert(old(self).view()[i as int].0 != name@);
                    }
                    assert(r == i as int);
                }
                let ghost before = old(self).positions@;
                let mut entry = self.positions.remove(i);
                entry.1.push((t, p));
                if entry.1.len() > HISTORY_CAP {
                    entry.1.remove(0);
                    proof {
                        assert(entry.1@ =~= push_capped(before[i as int].1@, t, p));
                    }
                }
                proof {
                    assert(entry.1@ =~= push_capped(before[i as int].1@, t, p));
                }
                self.positions.insert(i, entry);
                proof {
                    assert(self.positions@ =~= before.update(i as int, entry));
                    assert forall|k: int| 0 <= k < self.positions@.len() implies self.view()[k]
                        == apply_sighting(old(self).view(), name@, t, p)[k] by {
                        assert(self.view()[k] == entity_view(self.positions@[k]));
                        assert(old(self).view()[k] == entity_view(before[k]));
                    }
                    assert(final(self).view() =~= apply_sighting(old(self).view(), name@, t, p));
                }
                return;
            }
            i += 1;
        }
        proof {
            assert(old(self).view().len() == old(self).positions@.len());
            assert(find_name(old(self).view(), name@) == -1);
        }
        let mut h: Vec<(i32, (i32, i32))> = Vec::new();
        h.push((t, p));
        proof {
            assert(h@ =~= seq![(t, p)]);
        }
        self.positions.push((name, h));
        proof {
            assert(final(self).view() =~= apply_sighting(old(self).view(), name@, t, p));
        }
    }

    /// Collect the snapshot's relevant sightings in minimap order.
    pub(crate) fn collect_sightings(state: &GameState) -> (out: Vec<(String, (i32, i32))>)
        ensures
            sightings_view(out@) == spec_enemy_sightings(*state),
    {
        let mut out: Vec<(String, (i32, i32))> = Vec::new();
        match &state.minimap {
            Option::None => {
                proof {
                    assert(sightings_view(out@) =~= spec_enemy_sightings(*state));
                }
                out
            },
            Option::Some(minimap) => {
                let team = enemy_team_id(state);
                let n = minimap.len();
                let mut idx: usize = 0;
                proof {
                    assert(minimap@.take(0) =~= Seq::<(String, MinimapObject)>::empty());
                    assert(sightings_view(out@) =~= spec_sightings(minimap@.take(0), team as int));
                }
                while idx < n
                    invariant
                        n == minimap@.len(),
                        idx <= n,
                        team as int == spec_enemy_team_id(*state),
                        sightings_view(out@) == spec_sightings(
                            minimap@.take(idx as int),
                            team as int,
                        ),
                    decreases n - idx,
                {
                    let ghost prefix = minimap@.take(idx as int);
                    let ghost entry = minimap@[idx as int];
                    let ghost old_view = sightings_view(out@);
                    let obj = &minimap[idx].1;
                    if str_eq(obj.image.as_str(), "minimap_enemyicon") && obj.team == team {
                        match &obj.name {
                            Option::Some(name) => {
                                let hero_name = format_hero_name(name.as_str());
                                let x = (hero_name, (obj.xpos, obj.ypos));
                                proof {
                                    assert(sighting_view(x) == (
                                        spec_hero_name(name@),
                                        (obj.xpos, obj.ypos),
                                    ));
                                }
                                out.push(x);
                                proof {
                                    assert(sightings_view(out@) =~= old_view + spec_sighting_of(
                                        entry,
                                        team as int,
                                    ));
                                }
                            },
                            Option::None => {},
                        }
                    }
                    proof {
                        lemma_sightings_snoc(prefix, entry, team as int);
                        assert(prefix.push(entry) =~= minimap@.take(idx as int + 1));
                        if spec_sighting_of(entry, team as int).len() == 0 {
                            assert(sightings_view(out@) =~= old_view + spec_sighting_of(
                                entry,
                                team as int,
                            ));
                        }
                    }
                    idx += 1;
                }
                proof {
                    assert(minimap@.take(n as int) =~= minimap@);
                }
                out
            },
        }
    }

    /// Feed one snapshot. A snapshot whose clock does not advance past the
    /// last processed clock is discarded and nothing changes; otherwise every
    /// hostile-icon sighting of the opposing team with a known name appends
    /// one sample to that name's history, subject to the cap, and the last
    /// processed clock becomes the snapshot's clock.
    pub fn update(&mut self, state: &GameState)
        requires
            old(self).wf(),
        ensures
            final(self).wf(),
            spec_game_time_of(*state) <= old(self).last_game_time as int ==> *final(self) == *old(
                self,
            ),
            spec_game_time_of(*state) > old(self).last_game_time as int ==> {
                &&& final(self).last_game_time == spec_game_time32(*state)
                &&& final(self).view() == apply_sightings(
                    old(self).view(),
                    spec_enemy_sightings(*state),
                    spec_game_time32(*state),
                )
            },
    {
        let current_game_time = game_time_of(state);
        if current_game_time <= self.last_game_time {
            return;
        }
        let sightings = Self::collect_sightings(state);
        let ghost ss = sightings_view(sightings@);
        let n = sightings.len();
        let mut i: usize = 0;
        proof {
            assert(ss.take(0) =~= Seq::<(Seq<char>, (i32, i32))>::empty());
        }
        while i < n
            invariant
                n == sightings@.len(),
                i <= n,
                ss == sightings_view(sightings@),
                self.view() == apply_sightings(
                    old(self).view(),
                    ss.take(i as int),
                    current_game_time,
                ),
                self.last_game_time == old(self).last_game_time,
                wf_view(self.view(), current_game_time as int),
            decreases n - i,
        {
            let ghost prefix = ss.take(i as int);
            proof {
                assert(ss[i as int] == sighting_view(sightings@[i as int]));
            }
            let name = sightings[i].0.clone();
            let p = sightings[i].1;
            proof {
                assert(name@ == ss[i as int].0);
                assert(p == ss[i as int].1);
            }
            self.record_sighting(name, current_game_time, p);
            proof {
                lemma_apply_sightings_snoc(
                    old(self).view(),
                    prefix,
                    ss[i as int],
                    current_game_time,
                );
                assert(prefix.push(ss[i as int]) =~= ss.take(i as int + 1));
            }
            i += 1;
        }
        proof {
            assert(ss.take(n as int) =~= ss);
        }
        self.last_game_time = current_game_time;
    }

    /// Describe every entity whose most recent sample is within sixty seconds
    /// of the given clock: when and where it was last seen, plus — when two
    /// or more samples exist — the cardinal direction it was moving in.
    pub fn describe_enemy_movements(&self, game_time: i32) -> (out: Vec<String>)
        requires
            self.wf(),
        ensures
            lines_view(out@) == spec_movement_lines(self.view(), game_time as int),
    {
        let ghost now = game_time as int;
        let mut out: Vec<String> = Vec::new();
        let n = self.positions.len();
        let mut k: usize = 0;
        proof {
            assert(self.view().take(0) =~= Seq::<(Seq<char>, Seq<(i32, (i32, i32))>)>::empty());
            assert(lines_view(out@) =~= spec_movement_lines(self.view().take(0), now));
        }
        while k < n
            invariant
                n == self.positions@.len(),
                self.view().len() == n,
                k <= n,
                now == game_time as int,
                lines_view(out@) == spec_movement_lines(self.view().take(k as int), now),
            decreases n - k,
        {
            let ghost prefix = self.view().take(k as int);
            let ghost entry = self.view()[k as int];
            proof {
                assert(entry == entity_view(self.positions@[k as int]));
                lemma_movement_lines_snoc(prefix, entry, now);
                assert(prefix.push(entry) =~= self.view().take(k as int + 1));
            }
            let ghost before = lines_view(out@);
            let h = &self.positions[k].1;
            let hn = h.len();
            if hn >= 1 {
                let last = h[hn - 1];
                let ts: i64 = game_time as i64 - last.0 as i64;
                if 0 <= ts && ts <= 60 {
                    let line1 = seen_line(&self.positions[k].0, ts, last.1.0, last.1.1);
                    out.push(line1);
                    if hn >= 2 {
                        let prev = h[hn - 2];
                        let dx: i64 = last.1.0 as i64 - prev.1.0 as i64;
                        let dy: i64 = last.1.1 as i64 - prev.1.1 as i64;
                        let mut line2 = "    Moving ".to_owned();
                        line2.append(movement_direction(dx, dy));
                        out.push(line2);
                    }
                    proof {
                        assert(lines_view(out@) =~= before + spec_movement_lines_of(
                            entry.0,
                            entry.1,
                            now,
                        ));
                    }
                } else {
                    proof {
                        assert(lines_view(out@) =~= before + spec_movement_lines_of(
                            entry.0,
                            entry.1,
                            now,
                        ));
                    }
                }
            } else {
                proof {
                    assert(lines_view(out@) =~= before + spec_movement_lines_of(
                        entry.0,
                        entry.1,
                        now,
                    ));
                }
            }
            k += 1;
        }
        proof {
            assert(self.view().take(n as int) =~= self.view());
        }
        out
    }

    /// Predict a position for every entity with at least two samples whose
    /// latest sample is within thirty seconds of the given clock and whose two
    /// most recent samples are strictly separated in time: the displacement
    /// between them is scaled by (time since last sample) / (time between
    /// samples), truncating toward zero.
    pub fn predict_movements(&self, game_time: i32) -> (out: Vec<(String, (i64, i64))>)
        requires
            self.wf(),
        ensures
            predictions_view(out@) == spec_predictions(self.view(), game_time as int),
            forall|i: int|
                0 <= i < out@.len() ==> -0x2000000000 <= #[trigger] out@[i].1.0 <= 0x2000000000
                    && -0x2000000000 <= out@[i].1.1 <= 0x2000000000,
    {
        let ghost now = game_time as int;
        let mut out: Vec<(String, (i64, i64))> = Vec::new();
        let n = self.positions.len();
        let mut k: usize = 0;
        proof {
            assert(self.view().take(0) =~= Seq::<(Seq<char>, Seq<(i32, (i32, i32))>)>::empty());
            assert(predictions_view(out@) =~= spec_predictions(self.view().take(0), now));
        }
        while k < n
            invariant
                n == self.positions@.len(),
                self.view().len() == n,
                k <= n,
                now == game_time as int,
                predictions_view(out@) == spec_predictions(self.view().take(k as int), now),
                forall|i: int|
                    0 <= i < out@.len() ==> -0x2000000000 <= #[trigger] out@[i].1.0
                        <= 0x2000000000 && -0x2000000000 <= out@[i].1.1 <= 0x2000000000,
            decreases n - k,
        {
            let ghost prefix = self.view().take(k as int);
            let ghost entry = self.view()[k as int];
            proof {
                assert(entry == entity_view(self.positions@[k as int]));
                lemma_predictions_snoc(prefix, entry, now);
                assert(prefix.push(entry) =~= self.view().take(k as int + 1));
            }
            let ghost before = predictions_view(out@);
            let h = &self.positions[k].1;
            let hn = h.len();
            let mut predicted: bool = false;
            if hn >= 2 {
                let last = h[hn - 1];
                let prev = h[hn - 2];
                let ts: i64 = game_time as i64 - last.0 as i64;
                if 0 <= ts && ts <= 30 {
                    let dt: i64 = last.0 as i64 - prev.0 as i64;
                    if dt > 0 {
                        let dx: i64 = last.1.0 as i64 - prev.1.0 as i64;
                        let dy: i64 = last.1.1 as i64 - prev.1.1 as i64;
                        proof {
                            assert(-0x1E00000000 <= dx * ts <= 0x1E00000000) by (nonlinear_arith)
                                requires -0x100000000 <= dx <= 0x100000000 && 0 <= ts <= 30;
                            assert(-0x1E00000000 <= dy * ts <= 0x1E00000000) by (nonlinear_arith)
                                requires -0x100000000 <= dy <= 0x100000000 && 0 <= ts <= 30;
                        }
                        let px: i64 = last.1.0 as i64 + div_trunc_i64(dx * ts, dt);
                        let py: i64 = last.1.1 as i64 + div_trunc_i64(dy * ts, dt);
                        let name = self.positions[k].0.clone();
                        out.push((name, (px, py)));
                        predicted = true;
                        proof {
                            assert(spec_predicts(entry.1, now));
                            assert((px as int, py as int) == spec_prediction(entry.1, now));
                            assert(predictions_view(out@) =~= before + seq![
                                (entry.0, spec_prediction(entry.1, now)),
                            ]);
                        }
                    }
                }
            }
            proof {
                if !predicted {
                    assert(!spec_predicts(entry.1, now));
                    assert(predictions_view(out@) =~= before + Seq::<
                        (Seq<char>, (int, int)),
                    >::empty());
                }
            }
            k += 1;
        }
        proof {
            assert(self.view().take(n as int) =~= self.view());
        }
        out
    }
}

} // verus!
