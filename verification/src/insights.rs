//! Advisory composition: the stateless functions that turn the latest
//! snapshot and the derived component states into ordered advisory lines —
//! item suggestions by gold, a readiness score over health, mana and ability
//! availability, enemy extraction and merging, phase advisories, item-timing
//! and map-control analysis, and the compositor that strings it all together.

use vstd::prelude::*;
use crate::snapshot::{GameState, Hero, Ability, EnemyHero, spec_game_time32, spec_game_time_of,
    game_time_of};
use crate::text::{div_trunc, rem_trunc, div_trunc_i64, rem_trunc_i64, dec_int, push_dec_i64,
    lines_view};
use crate::tracker::{EnemyPositionTracker, spec_enemy_sightings, spec_movement_lines,
    spec_predictions, sightings_view};
use crate::geom::spec_position_dangerous;

verus! {

broadcast use vstd::seq::Seq::lemma_push_map_commute;

/// Ghost image of an optional advisory line.
pub open spec fn opt_line_view(r: Option<String>) -> Option<Seq<char>> {
    match r {
        Option::Some(s) => Option::Some(s@),
        Option::None => Option::None,
    }
}

/// The purchase advisory owed for a gold amount: a line above each of three
/// fixed thresholds, nothing below the lowest.
pub open spec fn spec_item_suggestion(gold: int) -> Option<Seq<char>> {
    if gold >= 4000 {
        Option::Some("  You have sufficient gold for major items (BKB, Blink, etc.)"@)
    } else if gold >= 2000 {
        Option::Some("  You have gold for mid-tier items (Force Staff, Eul's, etc.)"@)
    } else if gold >= 1000 {
        Option::Some("  Consider purchasing support/utility items"@)
    } else {
        Option::None
    }
}

/// Suggest a purchase tier for the given gold amount, if any is affordable.
pub fn suggest_items_based_on_gold(gold: i32) -> (r: Option<String>)
    ensures
        opt_line_view(r) == spec_item_suggestion(gold as int),
{
    if gold >= 4000 {
        Some("  You have sufficient gold for major items (BKB, Blink, etc.)".to_owned())
    } else if gold >= 2000 {
        Some("  You have gold for mid-tier items (Force Staff, Eul's, etc.)".to_owned())
    } else if gold >= 1000 {
        Some("  Consider purchasing support/utility items".to_owned())
    } else {
        None
    }
}

/// The health contribution to the readiness score.
pub open spec fn spec_health_score(h: Hero) -> int {
    match h.health_percent {
        Option::Some(p) => if p > 80 {
            2
        } else if p > 50 {
            1
        } else {
            -1
        },
        Option::None => 0,
    }
}

/// The mana contribution to the readiness score.
pub open spec fn spec_mana_score(h: Hero) -> int {
    match h.mana_percent {
        Option::Some(p) => if p > 70 {
            2
        } else if p > 40 {
            1
        } else {
            -1
        },
        Option::None => 0,
    }
}

/// Whether some ability is an ultimate that can currently be cast.
pub open spec fn spec_any_ult_ready(ab: Seq<(String, Ability)>) -> bool
    decreases ab.len(),
{
    if ab.len() == 0 {
        false
    } else {
        (spec_flag(ab[0].1.ultimate) && spec_flag(ab[0].1.can_cast)) || spec_any_ult_ready(
            ab.skip(1),
        )
    }
}

/// Whether every non-passive ability can currently be cast.
pub open spec fn spec_all_key_ready(ab: Seq<(String, Ability)>) -> bool
    decreases ab.len(),
{
    if ab.len() == 0 {
        true
    } else {
        (if !spec_passive(ab[0].1) {
            spec_flag(ab[0].1.can_cast)
        } else {
            true
        }) && spec_all_key_ready(ab.skip(1))
    }
}

/// An optional flag read as false when absent.
pub open spec fn spec_flag(f: Option<bool>) -> bool {
    match f {
        Option::Some(b) => b,
        Option::None => false,
    }
}

/// An ability counts as passive unless the snapshot says otherwise.
pub open spec fn spec_passive(a: Ability) -> bool {
    match a.passive {
        Option::Some(b) => b,
        Option::None => true,
    }
}

/// The readiness score: health and mana bands plus ability availability.
pub open spec fn spec_readiness_score(s: GameState) -> int {
    (match s.hero {
        Option::Some(h) => spec_health_score(h) + spec_mana_score(h),
        Option::None => 0,
    }) + (match s.abilities {
        Option::Some(ab) => (if spec_any_ult_ready(ab@) {
            2int
        } else {
            0int
        }) + (if spec_all_key_ready(ab@) {
            1int
        } else {
            0int
        }),
        Option::None => 0,
    })
}

/// The advisory tier a readiness score falls in.
pub open spec fn spec_readiness_text(score: int) -> Seq<char> {
    if score >= 4 {
        "Excellent! All systems ready for team fight."@
    } else if score >= 2 {
        "Good. Most resources available."@
    } else if score >= 0 {
        "Caution advised. Limited resources."@
    } else {
        "Not ready for team fight. Consider retreating."@
    }
}

/// Assess readiness for a team fight: score health, mana and ability
/// availability, then bucket the score into one of four advisory tiers.
pub fn assess_team_fight_readiness(state: &GameState) -> (r: String)
    ensures
        r@ == spec_readiness_text(spec_readiness_score(*state)),
{
    let mut score: i32 = 0;
    match &state.hero {
        Option::Some(h) => {
            match h.health_percent {
                Option::Some(p) => {
                    if p > 80 {
                        score += 2;
                    } else if p > 50 {
                        score += 1;
                    } else {
                        score -= 1;
                    }
                },
                Option::None => {},
            }
            match h.mana_percent {
                Option::Some(p) => {
                    if p > 70 {
                        score += 2;
                    } else if p > 40 {
                        score += 1;
                    } else {
                        score -= 1;
                    }
                },
                Option::None => {},
            }
        },
        Option::None => {},
    }
    match &state.abilities {
        Option::Some(ab) => {
            let n = ab.len();
            let mut any_ult: bool = false;
            let mut all_key: bool = true;
            let mut i: usize = 0;
            proof {
                assert(ab@.skip(0) =~= ab@);
            }
            while i < n
                invariant
                    n == ab@.len(),
                    i <= n,
                    spec_any_ult_ready(ab@) == (any_ult || spec_any_ult_ready(
                        ab@.skip(i as int),
                    )),
                    spec_all_key_ready(ab@) == (all_key && spec_all_key_ready(
                        ab@.skip(i as int),
                    )),
                decreases n - i,
            {
                proof {
                    assert(ab@.skip(i as int)[0] == ab@[i as int]);
                    assert(ab@.skip(i as int).skip(1) =~= ab@.skip(i as int + 1));
                }
                let a = &ab[i].1;
                if a.ultimate.unwrap_or(false) && a.can_cast.unwrap_or(false) {
                    any_ult = true;
                }
                if !a.passive.unwrap_or(true) && !a.can_cast.unwrap_or(false) {
                    all_key = false;
                }
                i += 1;
            }
            proof {
                assert(ab@.skip(n as int) =~= Seq::<(String, Ability)>::empty());
            }
            if any_ult {
                score += 2;
            }
            if all_key {
                score += 1;
            }
        },
        Option::None => {},
    }
    let text: &str = if score >= 4 {
        "Excellent! All systems ready for team fight."
    } else if score >= 2 {
        "Good. Most resources available."
    } else if score >= 0 {
        "Caution advised. Limited resources."
    } else {
        "Not ready for team fight. Consider retreating."
    };
    text.to_owned()
}

/// First index holding the given display name, or -1 when absent.
pub open spec fn find_enemy(v: Seq<(String, EnemyHero)>, name: Seq<char>) -> int
    decreases v.len(),
{
    if v.len() == 0 {
        -1
    } else if v[0].0@ == name {
        0
    } else {
        let r = find_enemy(v.skip(1), name);
        if r == -1 {
            -1
        } else {
            r + 1
        }
    }
}

proof fn lemma_find_enemy(v: Seq<(String, EnemyHero)>, name: Seq<char>)
    ensures
        find_enemy(v, name) == -1 ==> forall|i: int| 0 <= i < v.len() ==> v[i].0@ != name,
        find_enemy(v, name) != -1 ==> {
            &&& 0 <= find_enemy(v, name) < v.len()
            &&& v[find_enemy(v, name)].0@ == name
            &&& forall|k: int| 0 <= k < find_enemy(v, name) ==> v[k].0@ != name
        },
    decreases v.len(),
{
    if v.len() > 0 && v[0].0@ != name {
        lemma_find_enemy(v.skip(1), name);
        assert forall|i: int| 1 <= i < v.len() implies v[i].0@ == v.skip(1)[i - 1].0@ by {
            assert(v[i] == v.skip(1)[i - 1]);
        }
    }
}

/// What one extraction entry records for an enemy seen at a clock.
pub open spec fn spec_fresh_enemy(e: EnemyHero, name: Seq<char>, p: (i32, i32), t: int) -> bool {
    &&& e.name@ == name
    &&& e.position == p
    &&& e.last_seen as int == t
    &&& e.estimated_level as int == crate::text::spec_hero_level(t)
    &&& e.items@ == Seq::<String>::empty()
    &&& e.health is None
    &&& e.max_health is None
    &&& e.health_percent is None
    &&& e.mana is None
    &&& e.max_mana is None
    &&& e.mana_percent is None
}

/// The keys and positions of the extracted mapping: each sighting upserted in
/// order, a later sighting of the same name replacing the earlier one.
pub open spec fn spec_upsert_positions(
    v: Seq<(Seq<char>, (i32, i32))>,
    ss: Seq<(Seq<char>, (i32, i32))>,
) -> Seq<(Seq<char>, (i32, i32))>
    decreases ss.len(),
{
    if ss.len() == 0 {
        v
    } else {
        spec_upsert_positions(spec_upsert_one(v, ss[0].0, ss[0].1), ss.skip(1))
    }
}

/// One upsert into a keyed run of positions.
pub open spec fn spec_upsert_one(
    v: Seq<(Seq<char>, (i32, i32))>,
    name: Seq<char>,
    p: (i32, i32),
) -> Seq<(Seq<char>, (i32, i32))> {
    let i = find_key(v, name);
    if i == -1 {
        v.push((name, p))
    } else {
        v.update(i, (name, p))
    }
}

/// First index holding the given key, or -1 when absent.
pub open spec fn find_key(v: Seq<(Seq<char>, (i32, i32))>, name: Seq<char>) -> int
    decreases v.len(),
{
    if v.len() == 0 {
        -1
    } else if v[0].0 == name {
        0
    } else {
        let r = find_key(v.skip(1), name);
        if r == -1 {
            -1
        } else {
            r + 1
        }
    }
}

proof fn lemma_find_key(v: Seq<(Seq<char>, (i32, i32))>, name: Seq<char>)
    ensures
        find_key(v, name) == -1 ==> forall|i: int| 0 <= i < v.len() ==> v[i].0 != name,
        find_key(v, name) != -1 ==> {
            &&& 0 <= find_key(v, name) < v.len()
            &&& v[find_key(v, name)].0 == name
            &&& forall|k: int| 0 <= k < find_key(v, name) ==> v[k].0 != name
        },
    decreases v.len(),
{
    if v.len() > 0 && v[0].0 != name {
        lemma_find_key(v.skip(1), name);
        assert forall|i: int| 1 <= i < v.len() implies v[i].0 == v.skip(1)[i - 1].0 by {}
    }
}

proof fn lemma_upsert_snoc(
    v: Seq<(Seq<char>, (i32, i32))>,
    ss: Seq<(Seq<char>, (i32, i32))>,
    x: (Seq<char>, (i32, i32)),
)
    ensures
        spec_upsert_positions(v, ss.push(x)) == spec_upsert_one(
            spec_upsert_positions(v, ss),
            x.0,
            x.1,
        ),
    decreases ss.len(),
{
    if ss.len() == 0 {
        let e = Seq::<(Seq<char>, (i32, i32))>::empty();
        assert(ss.push(x)[0] == x);
        assert(ss.push(x).skip(1) =~= e);
        assert(spec_upsert_positions(spec_upsert_one(v, x.0, x.1), e) == spec_upsert_one(
            v,
            x.0,
            x.1,
        ));
        assert(spec_upsert_positions(v, ss) == v);
    } else {
        assert(ss.push(x)[0] == ss[0]);
        assert(ss.push(x).skip(1) =~= ss.skip(1).push(x));
        lemma_upsert_snoc(spec_upsert_one(v, ss[0].0, ss[0].1), ss.skip(1), x);
    }
}

/// The keyed positions a run of extracted enemies holds.
pub open spec fn enemies_positions(v: Seq<(String, EnemyHero)>) -> Seq<(Seq<char>, (i32, i32))> {
    v.map_values(|e: (String, EnemyHero)| (e.0@, e.1.position))
}

/// Replace the named entry's record or add a new one at the end.
fn upsert_enemy(out: &mut Vec<(String, EnemyHero)>, name: String, hero: EnemyHero)
    ensures
        enemies_positions(final(out)@) == spec_upsert_one(
            enemies_positions(old(out)@),
            name@,
            hero.position,
        ),
        final(out)@.len() >= 1,
        forall|a: int|
            0 <= a < final(out)@.len() ==> (#[trigger] final(out)@[a].1 == hero
                && final(out)@[a].0@ == name@) || (exists|b: int|
                0 <= b < old(out)@.len() && final(out)@[a].1 == old(out)@[b].1
                    && final(out)@[a].0 == old(out)@[b].0),
{
    let ghost nv = name@;
    let ghost gh = hero;
    proof {
        lemma_find_key(enemies_positions(old(out)@), nv);
        assert(enemies_positions(old(out)@).len() == old(out)@.len());
    }
    let n = out.len();
    let mut k: usize = 0;
    while k < n
        invariant
            n == out@.len(),
            *out == *old(out),
            k <= n,
            nv == name@,
            gh == hero,
            forall|a: int| 0 <= a < k ==> #[trigger] old(out)@[a].0@ != nv,
        decreases n - k,
    {
        proof {
            lemma_find_key(enemies_positions(old(out)@), nv);
            assert(enemies_positions(old(out)@).len() == old(out)@.len());
            assert(enemies_positions(old(out)@)[k as int] == (
                old(out)@[k as int].0@,
                old(out)@[k as int].1.position,
            ));
        }
        if out[k].0 == name {
            proof {
                let r = find_key(enemies_positions(old(out)@), nv);
                assert(enemies_positions(old(out)@)[k as int].0 == nv);
                assert(r != -1);
                if r < k as int {
                    assert(enemies_positions(old(out)@)[r].0 != nv);
                }
                if r > k as int {
                    assert(enemies_positions(old(out)@)[k as int].0 != nv);
                }
                assert(r == k as int);
            }
            let ghost before = old(out)@;
            let pair = (name, hero);
            let ghost gp = pair;
            let _ = out.remove(k);
            out.insert(k, pair);
            proof {
                let mid = before.remove(k as int);
                before.remove_ensures(k as int);
                mid.insert_ensures(k as int, gp);
                assert(out@[k as int] == gp);
                assert(out@ =~= before.update(k as int, gp));
                assert(enemies_positions(before).len() == before.len());
                assert(enemies_positions(out@).len() == out@.len());
                assert(find_key(enemies_positions(before), nv) == k as int);
                let target = spec_upsert_one(enemies_positions(before), nv, gh.position);
                assert(target == enemies_positions(before).update(k as int, (nv, gh.position)));
                assert forall|a: int| 0 <= a < out@.len() implies enemies_positions(out@)[a]
                    == target[a] by {
                    assert(enemies_positions(out@)[a] == (out@[a].0@, out@[a].1.position));
                    assert(enemies_positions(before)[a] == (
                        before[a].0@,
                        before[a].1.position,
                    ));
                    if a == k as int {
                        assert(out@[a] == gp);
                        assert(gp.0@ == nv);
                        assert(gp.1 == gh);
                        assert(target[a] == (nv, gh.position));
                    } else {
                        assert(out@[a] == before[a]);
                        assert(target[a] == enemies_positions(before)[a]);
                    }
                }
                assert(enemies_positions(out@) =~= target);
            }
            return;
        }
        k += 1;
    }
    proof {
        lemma_find_key(enemies_positions(old(out)@), nv);
        assert(enemies_positions(old(out)@).len() == old(out)@.len());
        assert forall|a: int| 0 <= a < old(out)@.len() implies enemies_positions(old(out)@)[a].0
            != nv by {
            assert(enemies_positions(old(out)@)[a] == (old(out)@[a].0@, old(out)@[a].1.position));
        }
        assert(find_key(enemies_positions(old(out)@), nv) == -1);
    }
    let pair = (name, hero);
    let ghost gp = pair;
    out.push(pair);
    proof {
        assert(out@[out@.len() - 1] == gp);
        assert(enemies_positions(out@) =~= spec_upsert_one(
            enemies_positions(old(out)@),
            nv,
            gh.position,
        ));
    }
}

/// Extract the currently visible opposing entities from a snapshot as a
/// mapping from display name to what is known of that entity: its position,
/// when it was seen, and a level estimated from the clock alone. Health and
/// mana stay unknown — the feed carries no genuine source for them — and no
/// items are known. A name sighted twice keeps the later sighting.
pub fn extract_enemy_heroes(state: &GameState) -> (out: Vec<(String, EnemyHero)>)
    ensures
        enemies_positions(out@) == spec_upsert_positions(
            Seq::<(Seq<char>, (i32, i32))>::empty(),
            spec_enemy_sightings(*state),
        ),
        forall|i: int|
            0 <= i < out@.len() ==> spec_fresh_enemy(
                #[trigger] out@[i].1,
                out@[i].0@,
                out@[i].1.position,
                spec_game_time_of(*state),
            ),
{
    let current_game_time = game_time_of(state);
    let level = crate::text::estimate_hero_level(current_game_time);
    let sightings = EnemyPositionTracker::collect_sightings(state);
    let ghost ss = sightings_view(sightings@);
    let mut out: Vec<(String, EnemyHero)> = Vec::new();
    let n = sightings.len();
    let mut i: usize = 0;
    proof {
        assert(ss.take(0) =~= Seq::<(Seq<char>, (i32, i32))>::empty());
        assert(enemies_positions(out@) =~= Seq::<(Seq<char>, (i32, i32))>::empty());
    }
    while i < n
        invariant
            n == sightings@.len(),
            i <= n,
            ss == sightings_view(sightings@),
            level as int == crate::text::spec_hero_level(current_game_time as int),
            current_game_time as int == spec_game_time_of(*state),
            enemies_positions(out@) == spec_upsert_positions(
                Seq::<(Seq<char>, (i32, i32))>::empty(),
                ss.take(i as int),
            ),
            forall|a: int|
                0 <= a < out@.len() ==> spec_fresh_enemy(
                    #[trigger] out@[a].1,
                    out@[a].0@,
                    out@[a].1.position,
                    spec_game_time_of(*state),
                ),
        decreases n - i,
    {
        let ghost prefix = ss.take(i as int);
        let ghost old_out = out@;
        proof {
            assert(ss[i as int] == crate::tracker::sighting_view(sightings@[i as int]));
            lemma_upsert_snoc(Seq::<(Seq<char>, (i32, i32))>::empty(), prefix, ss[i as int]);
            assert(prefix.push(ss[i as int]) =~= ss.take(i as int + 1));
        }
        let name = sightings[i].0.clone();
        let p = sightings[i].1;
        let hero = EnemyHero {
            name: name.clone(),
            position: p,
            last_seen: current_game_time,
            estimated_level: level,
            items: Vec::new(),
            health: None,
            max_health: None,
            health_percent: None,
            mana: None,
            max_mana: None,
            mana_percent: None,
        };
        proof {
            assert(hero.items@ =~= Seq::<String>::empty());
            assert(spec_fresh_enemy(hero, name@, p, spec_game_time_of(*state)));
        }
        upsert_enemy(&mut out, name, hero);
        proof {
            assert forall|a: int| 0 <= a < out@.len() implies spec_fresh_enemy(
                #[trigger] out@[a].1,
                out@[a].0@,
                out@[a].1.position,
                spec_game_time_of(*state),
            ) by {
                if !(out@[a].1 == hero && out@[a].0@ == name@) {
                    let b = choose|b: int|
                        0 <= b < old_out.len() && out@[a].1 == old_out[b].1 && out@[a].0
                            == old_out[b].0;
                }
            }
        }
        i += 1;
    }
    proof {
        assert(ss.take(n as int) =~= ss);
    }
    out
}


/// What one record keeps after being refreshed by a newer sighting: position,
/// recency and level come from the newer record; health and mana carry over
/// only when the newer record knows them; name and items are kept.
pub open spec fn spec_merged_hero(e: EnemyHero, h: EnemyHero) -> EnemyHero {
    EnemyHero {
        name: e.name,
        position: h.position,
        last_seen: h.last_seen,
        estimated_level: h.estimated_level,
        items: e.items,
        health: if h.health is Some {
            h.health
        } else {
            e.health
        },
        max_health: if h.health is Some {
            h.max_health
        } else {
            e.max_health
        },
        health_percent: if h.health is Some {
            h.health_percent
        } else {
            e.health_percent
        },
        mana: if h.mana is Some {
            h.mana
        } else {
            e.mana
        },
        max_mana: if h.mana is Some {
            h.max_mana
        } else {
            e.max_mana
        },
        mana_percent: if h.mana is Some {
            h.mana_percent
        } else {
            e.mana_percent
        },
    }
}

/// One incoming record folded into the accumulated mapping: a new name is
/// added at the end; a known name is refreshed only when the incoming record
/// is more recent.
pub open spec fn spec_merge_one(
    v: Seq<(String, EnemyHero)>,
    name: String,
    h: EnemyHero,
) -> Seq<(String, EnemyHero)> {
    let i = find_enemy(v, name@);
    if i == -1 {
        v.push((name, h))
    } else if h.last_seen > v[i].1.last_seen {
        v.update(i, (v[i].0, spec_merged_hero(v[i].1, h)))
    } else {
        v
    }
}

/// A whole batch of incoming records folded in, left to right.
pub open spec fn spec_merge_all(
    v: Seq<(String, EnemyHero)>,
    news: Seq<(String, EnemyHero)>,
) -> Seq<(String, EnemyHero)>
    decreases news.len(),
{
    if news.len() == 0 {
        v
    } else {
        spec_merge_all(spec_merge_one(v, news[0].0, news[0].1), news.skip(1))
    }
}

/// Fold one incoming record into the accumulated mapping.
fn merge_one_enemy(existing: &mut Vec<(String, EnemyHero)>, name: String, h: EnemyHero)
    ensures
        final(existing)@ == spec_merge_one(old(existing)@, name, h),
{
    let ghost nv = name@;
    let ghost gh = h;
    proof {
        lemma_find_enemy(old(existing)@, nv);
    }
    let n = existing.len();
    let mut k: usize = 0;
    while k < n
        invariant
            n == existing@.len(),
            *existing == *old(existing),
            k <= n,
            nv == name@,
            gh == h,
            forall|a: int| 0 <= a < k ==> #[trigger] old(existing)@[a].0@ != nv,
        decreases n - k,
    {
        proof {
            lemma_find_enemy(old(existing)@, nv);
        }
        if existing[k].0 == name {
            proof {
                let r = find_enemy(old(existing)@, nv);
                assert(old(existing)@[k as int].0@ == nv);
                assert(r != -1);
                if r < k as int {
                    assert(old(existing)@[r].0@ != nv);
                }
                if r > k as int {
                    assert(old(existing)@[k as int].0@ != nv);
                }
                assert(r == k as int);
            }
            let ghost before = old(existing)@;
            if h.last_seen > existing[k].1.last_seen {
                let mut entry = existing.remove(k);
                entry.1.position = h.position;
                entry.1.last_seen = h.last_seen;
                entry.1.estimated_level = h.estimated_level;
                if h.health.is_some() {
                    entry.1.health = h.health;
                    entry.1.max_health = h.max_health;
                    entry.1.health_percent = h.health_percent;
                }
                if h.mana.is_some() {
                    entry.1.mana = h.mana;
                    entry.1.max_mana = h.max_mana;
                    entry.1.mana_percent = h.mana_percent;
                }
                proof {
                    assert(entry.1 == spec_merged_hero(before[k as int].1, gh));
                }
                existing.insert(k, entry);
                proof {
                    assert(existing@ =~= before.update(k as int, (
                        before[k as int].0,
                        spec_merged_hero(before[k as int].1, gh),
                    )));
                }
            }
            return;
        }
        k += 1;
    }
    proof {
        assert(find_enemy(old(existing)@, nv) == -1);
    }
    existing.push((name, h));
}

proof fn lemma_merge_all_snoc(
    v: Seq<(String, EnemyHero)>,
    news: Seq<(String, EnemyHero)>,
    x: (String, EnemyHero),
)
    ensures
        spec_merge_all(v, news.push(x)) == spec_merge_one(spec_merge_all(v, news), x.0, x.1),
    decreases news.len(),
{
    if news.len() == 0 {
        let e = Seq::<(String, EnemyHero)>::empty();
        assert(news.push(x)[0] == x);
        assert(news.push(x).skip(1) =~= e);
        assert(spec_merge_all(spec_merge_one(v, x.0, x.1), e) == spec_merge_one(v, x.0, x.1));
        assert(spec_merge_all(v, news) == v);
    } else {
        assert(news.push(x)[0] == news[0]);
        assert(news.push(x).skip(1) =~= news.skip(1).push(x));
        lemma_merge_all_snoc(spec_merge_one(v, news[0].0, news[0].1), news.skip(1), x);
    }
}

/// Merge a batch of freshly extracted records into the accumulated mapping:
/// new names are added, and a known name is refreshed only when the incoming
/// record is more recent than what is held.
pub fn merge_enemy_heroes(
    existing: &mut Vec<(String, EnemyHero)>,
    new_heroes: Vec<(String, EnemyHero)>,
)
    ensures
        final(existing)@ == spec_merge_all(old(existing)@, new_heroes@),
{
    let ghost news = new_heroes@;
    let mut rest = new_heroes;
    let ghost mut i: int = 0;
    proof {
        assert(news.take(0) =~= Seq::<(String, EnemyHero)>::empty());
        assert(spec_merge_all(old(existing)@, news.take(0)) == old(existing)@);
    }
    while rest.len() > 0
        invariant
            0 <= i <= news.len(),
            rest@ == news.skip(i),
            existing@ == spec_merge_all(old(existing)@, news.take(i)),
        decreases rest@.len(),
    {
        proof {
            assert(rest@[0] == news[i]);
        }
        let e = rest.remove(0);
        proof {
            assert(rest@ =~= news.skip(i + 1));
        }
        merge_one_enemy(existing, e.0, e.1);
        proof {
            lemma_merge_all_snoc(old(existing)@, news.take(i), news[i]);
            assert(news.take(i).push(news[i]) =~= news.take(i + 1));
            i = i + 1;
        }
    }
    proof {
        assert(news.take(news.len() as int) =~= news);
        assert(rest@.len() == 0);
        assert(i == news.len());
    }
}


/// The warning owed for one tracked enemy in the mid game: only when seen
/// within the last thirty seconds and inside the contested central area.
pub open spec fn spec_enemy_warning_of(e: (String, EnemyHero), t: int) -> Seq<Seq<char>> {
    let seen = e.1.last_seen as int;
    let danger = spec_position_dangerous(e.1.position.0 as int, e.1.position.1 as int);
    if t - seen < 30 && danger {
        seq!["  "@ + e.0@ + " was recently spotted nearby - be careful!"@]
    } else {
        Seq::empty()
    }
}

/// The mid-game enemy warnings, entity by entity in order.
pub open spec fn spec_enemy_warnings(enemies: Seq<(String, EnemyHero)>, t: int) -> Seq<Seq<char>>
    decreases enemies.len(),
{
    if enemies.len() == 0 {
        Seq::empty()
    } else {
        spec_enemy_warning_of(enemies[0], t) + spec_enemy_warnings(enemies.skip(1), t)
    }
}

proof fn lemma_enemy_warnings_snoc(enemies: Seq<(String, EnemyHero)>, e: (String, EnemyHero),
    t: int)
    ensures
        spec_enemy_warnings(enemies.push(e), t) == spec_enemy_warnings(enemies, t)
            + spec_enemy_warning_of(e, t),
    decreases enemies.len(),
{
    if enemies.len() == 0 {
        let emp = Seq::<(String, EnemyHero)>::empty();
        assert(enemies.push(e)[0] == e);
        assert(enemies.push(e).skip(1) =~= emp);
        assert(spec_enemy_warnings(emp, t) == Seq::<Seq<char>>::empty());
        assert(spec_enemy_warnings(enemies, t) == Seq::<Seq<char>>::empty());
        assert(spec_enemy_warnings(enemies.push(e), t) =~= spec_enemy_warnings(enemies, t)
            + spec_enemy_warning_of(e, t));
    } else {
        assert(enemies.push(e)[0] == enemies[0]);
        assert(enemies.push(e).skip(1) =~= enemies.skip(1).push(e));
        lemma_enemy_warnings_snoc(enemies.skip(1), e, t);
        assert(spec_enemy_warnings(enemies.push(e), t) =~= spec_enemy_warnings(enemies, t)
            + spec_enemy_warning_of(e, t));
    }
}

/// The early-game advisory block: last-hit pacing against ten per minute,
/// the camp-stacking window at the end of each minute, and the rune window
/// at the end of every second minute.
pub open spec fn spec_early_lines(s: GameState) -> Seq<Seq<char>> {
    let t = spec_game_time_of(s);
    let minutes = div_trunc(t, 60);
    let seconds = rem_trunc(t, 60);
    seq!["Early Game Phase:"@] + (match s.player {
        Option::Some(p) => match p.last_hits {
            Option::Some(lh) => {
                let expected = minutes * 10;
                if (lh as int) < div_trunc(expected, 2) {
                    seq![
                        "  Your last hits are low ("@ + dec_int(lh as int)
                            + "). Focus more on last hitting."@,
                    ]
                } else if lh as int >= expected {
                    seq!["  Good job on last hitting! You have "@ + dec_int(lh as int) + " CS."@]
                } else {
                    Seq::<Seq<char>>::empty()
                }
            },
            Option::None => Seq::<Seq<char>>::empty(),
        },
        Option::None => Seq::<Seq<char>>::empty(),
    }) + (if 45 <= seconds <= 48 {
        seq!["  Stack camps now! Pull at X:53."@]
    } else {
        Seq::<Seq<char>>::empty()
    }) + (if minutes > 0 && rem_trunc(minutes, 2) == 0 && seconds >= 55 {
        seq!["  Water runes spawning in a few seconds!"@]
    } else {
        Seq::<Seq<char>>::empty()
    })
}

/// The mid-game advisory block: a purchase tier for the current gold, the
/// nearby-enemy warnings, and the objective reminder from the ten-minute mark.
pub open spec fn spec_mid_lines(s: GameState, enemies: Seq<(String, EnemyHero)>) -> Seq<
    Seq<char>,
> {
    let t = spec_game_time_of(s);
    let minutes = div_trunc(t, 60);
    seq!["Mid Game Phase:"@] + (match s.player {
        Option::Some(p) => match p.gold {
            Option::Some(g) => match spec_item_suggestion(g as int) {
                Option::Some(l) => seq![l],
                Option::None => Seq::<Seq<char>>::empty(),
            },
            Option::None => Seq::<Seq<char>>::empty(),
        },
        Option::None => Seq::<Seq<char>>::empty(),
    }) + spec_enemy_warnings(enemies, t) + (if minutes >= 10 {
        seq!["  Roshan is available. Consider checking/taking with team coordination."@]
    } else {
        Seq::<Seq<char>>::empty()
    })
}

/// The late-game advisory block: the buyback-affordability check and the
/// readiness tier.
pub open spec fn spec_late_lines(s: GameState) -> Seq<Seq<char>> {
    seq!["Late Game Phase:"@] + (match s.hero {
        Option::Some(h) => match h.buyback_cost {
            Option::Some(cost) => match s.player {
                Option::Some(p) => match p.gold {
                    Option::Some(g) => if g < cost {
                        seq![
                            "  You don't have buyback gold! Need "@ + dec_int(
                                cost as int - g as int,
                            ) + " more gold."@,
                        ]
                    } else {
                        seq!["  You have buyback available ("@ + dec_int(cost as int) + " gold)."@]
                    },
                    Option::None => Seq::<Seq<char>>::empty(),
                },
                Option::None => Seq::<Seq<char>>::empty(),
            },
            Option::None => Seq::<Seq<char>>::empty(),
        },
        Option::None => Seq::<Seq<char>>::empty(),
    }) + seq!["  Team fight readiness: "@ + spec_readiness_text(spec_readiness_score(s))]
}

/// The whole phase advisory block, selected by game-clock thresholds: early
/// before ten minutes, mid before twenty-five, late after.
pub open spec fn spec_coaching_lines(s: GameState, enemies: Seq<(String, EnemyHero)>) -> Seq<
    Seq<char>,
> {
    let minutes = div_trunc(spec_game_time_of(s), 60);
    seq!["Coach Insights:"@] + (if minutes < 10 {
        spec_early_lines(s)
    } else if minutes < 25 {
        spec_mid_lines(s, enemies)
    } else {
        spec_late_lines(s)
    })
}

/// Produce the phase advisory block for the current snapshot: last-hit pacing
/// and timing windows in the early game; purchases, enemy warnings and
/// objectives in the mid game; buyback and readiness in the late game.
pub fn generate_coaching_insights(
    state: &GameState,
    enemy_heroes: &Vec<(String, EnemyHero)>,
) -> (out: Vec<String>)
    ensures
        lines_view(out@) == spec_coaching_lines(*state, enemy_heroes@),
{
    let ghost t = spec_game_time_of(*state);
    let game_time = game_time_of(state);
    let minutes = div_trunc_i64(game_time as i64, 60);
    let seconds = rem_trunc_i64(game_time as i64, 60);
    let mut out: Vec<String> = Vec::new();
    out.push("Coach Insights:".to_owned());
    if minutes < 10 {
        out.push("Early Game Phase:".to_owned());
        match &state.player {
            Option::Some(p) => {
                match p.last_hits {
                    Option::Some(lh) => {
                        let expected: i64 = minutes * 10;
                        let half = div_trunc_i64(expected, 2);
                        if (lh as i64) < half {
                            let mut line = "  Your last hits are low (".to_owned();
                            push_dec_i64(&mut line, lh as i64);
                            line.append("). Focus more on last hitting.");
                            out.push(line);
                        } else if lh as i64 >= expected {
                            let mut line = "  Good job on last hitting! You have ".to_owned();
                            push_dec_i64(&mut line, lh as i64);
                            line.append(" CS.");
                            out.push(line);
                        }
                    },
                    Option::None => {},
                }
            },
            Option::None => {},
        }
        if 45 <= seconds && seconds <= 48 {
            out.push("  Stack camps now! Pull at X:53.".to_owned());
        }
        if minutes > 0 && rem_trunc_i64(minutes, 2) == 0 && seconds >= 55 {
            out.push("  Water runes spawning in a few seconds!".to_owned());
        }
        proof {
            assert(lines_view(out@) =~= seq!["Coach Insights:"@] + spec_early_lines(*state));
        }
    } else if minutes < 25 {
        out.push("Mid Game Phase:".to_owned());
        match &state.player {
            Option::Some(p) => {
                match p.gold {
                    Option::Some(g) => {
                        match suggest_items_based_on_gold(g) {
                            Option::Some(line) => out.push(line),
                            Option::None => {},
                        }
                    },
                    Option::None => {},
                }
            },
            Option::None => {},
        }
        proof {
            assert(lines_view(out@) =~= seq!["Coach Insights:"@, "Mid Game Phase:"@]
                + (match state.player {
                Option::Some(p) => match p.gold {
                    Option::Some(g) => match spec_item_suggestion(g as int) {
                        Option::Some(l) => seq![l],
                        Option::None => Seq::<Seq<char>>::empty(),
                    },
                    Option::None => Seq::<Seq<char>>::empty(),
                },
                Option::None => Seq::<Seq<char>>::empty(),
            }));
        }
        let ghost base = lines_view(out@);
        let n = enemy_heroes.len();
        let mut k: usize = 0;
        proof {
            assert(enemy_heroes@.take(0) =~= Seq::<(String, EnemyHero)>::empty());
            assert(base + spec_enemy_warnings(enemy_heroes@.take(0), t) =~= base);
        }
        while k < n
            invariant
                n == enemy_heroes@.len(),
                k <= n,
                t == spec_game_time_of(*state),
                game_time as int == t,
                lines_view(out@) == base + spec_enemy_warnings(enemy_heroes@.take(k as int), t),
            decreases n - k,
        {
            let ghost prefix = enemy_heroes@.take(k as int);
            let ghost entry = enemy_heroes@[k as int];
            let ghost before = lines_view(out@);
            let e = &enemy_heroes[k].1;
            let since: i64 = game_time as i64 - e.last_seen as i64;
            if since < 30 && crate::geom::is_position_dangerous(&e.position) {
                let mut line = "  ".to_owned();
                line.append(enemy_heroes[k].0.as_str());
                line.append(" was recently spotted nearby - be careful!");
                out.push(line);
            }
            proof {
                lemma_enemy_warnings_snoc(prefix, entry, t);
                assert(prefix.push(entry) =~= enemy_heroes@.take(k as int + 1));
                assert(lines_view(out@) =~= before + spec_enemy_warning_of(entry, t));
            }
            k += 1;
        }
        proof {
            assert(enemy_heroes@.take(n as int) =~= enemy_heroes@);
        }
        if minutes >= 10 {
            out.push(
                "  Roshan is available. Consider checking/taking with team coordination.".to_owned(),
            );
        }
        proof {
            assert(lines_view(out@) =~= seq!["Coach Insights:"@] + spec_mid_lines(
                *state,
                enemy_heroes@,
            ));
        }
    } else {
        out.push("Late Game Phase:".to_owned());
        match &state.hero {
            Option::Some(h) => {
                match h.buyback_cost {
                    Option::Some(cost) => {
                        match &state.player {
                            Option::Some(p) => {
                                match p.gold {
                                    Option::Some(g) => {
                                        if g < cost {
                                            let mut line =
                                                "  You don't have buyback gold! Need ".to_owned();
                                            push_dec_i64(&mut line, cost as i64 - g as i64);
                                            line.append(" more gold.");
                                            out.push(line);
                                        } else {
                                            let mut line =
                                                "  You have buyback available (".to_owned();
                                            push_dec_i64(&mut line, cost as i64);
                                            line.append(" gold).");
                                            out.push(line);
                                        }
                                    },
                                    Option::None => {},
                                }
                            },
                            Option::None => {},
                        }
                    },
                    Option::None => {},
                }
            },
            Option::None => {},
        }
        let readiness = assess_team_fight_readiness(state);
        let mut line = "  Team fight readiness: ".to_owned();
        line.append(readiness.as_str());
        out.push(line);
        proof {
            assert(lines_view(out@) =~= seq!["Coach Insights:"@] + spec_late_lines(*state));
        }
    }
    out
}


/// The net-worth benchmark already reached at a minute count: its minute
/// mark, its expected net worth, and its item milestone.
pub open spec fn spec_benchmark(minutes: int) -> Option<(int, int, Seq<char>)> {
    if minutes >= 30 {
        Option::Some((30int, 18000int, "Third major item (Satanic/Butterfly)"@))
    } else if minutes >= 20 {
        Option::Some((20int, 11000int, "Second major item (BKB/Desolator)"@))
    } else if minutes >= 15 {
        Option::Some((15int, 7000int, "Core farming item (Battlefury/Maelstrom)"@))
    } else if minutes >= 10 {
        Option::Some((10int, 4000int, "Power Treads + Wraith Bands"@))
    } else {
        Option::None
    }
}

/// The next net-worth benchmark still ahead at a minute count.
pub open spec fn spec_next_benchmark(minutes: int) -> Option<(int, int, Seq<char>)> {
    if minutes < 10 {
        Option::Some((10int, 4000int, "Power Treads + Wraith Bands"@))
    } else if minutes < 15 {
        Option::Some((15int, 7000int, "Core farming item (Battlefury/Maelstrom)"@))
    } else if minutes < 20 {
        Option::Some((20int, 11000int, "Second major item (BKB/Desolator)"@))
    } else if minutes < 30 {
        Option::Some((30int, 18000int, "Third major item (Satanic/Butterfly)"@))
    } else {
        Option::None
    }
}

/// The snapshot's net worth, or zero when absent.
pub open spec fn spec_net_worth(s: GameState) -> int {
    match s.player {
        Option::Some(p) => match p.net_worth {
            Option::Some(n) => n as int,
            Option::None => 0,
        },
        Option::None => 0,
    }
}

/// The item-timing report: where the net worth stands against the benchmark
/// already reached, and what the next benchmark asks for.
pub open spec fn spec_item_timing_lines(s: GameState) -> Seq<Seq<char>> {
    let minutes = div_trunc(spec_game_time_of(s), 60);
    let net_worth = spec_net_worth(s);
    seq!["Item Timing Analysis:"@] + (match spec_benchmark(minutes) {
        Option::Some((bt, bn, items)) => {
            let diff = net_worth - bn;
            (if diff >= 1000 {
                seq!["  You're ahead of item timings! +"@ + dec_int(diff) + " gold"@]
            } else if diff >= -1000 {
                seq!["  You're on track with item timings"@]
            } else {
                seq!["  You're behind on item timings: "@ + dec_int(diff) + " gold"@]
            }) + seq!["  Current benchmark ("@ + dec_int(bt) + " min): "@ + items]
                + (match spec_next_benchmark(minutes) {
                Option::Some((nt, nn, ni)) => {
                    let time_left = nt - minutes;
                    let gold_needed = nn - net_worth;
                    seq![
                        "  Next goal ("@ + dec_int(nt) + " min): "@ + ni,
                        "  Need "@ + dec_int(gold_needed) + " gold in "@ + dec_int(time_left)
                            + " minutes ("@ + dec_int(div_trunc(gold_needed, time_left))
                            + " GPM)"@,
                    ]
                },
                Option::None => Seq::<Seq<char>>::empty(),
            })
        },
        Option::None => seq!["  No item benchmarks available for current game time"@],
    })
}

/// Analyze item timings: compare the current net worth against the benchmark
/// for the elapsed minutes and state what the next benchmark asks for.
pub fn analyze_item_timings(state: &GameState) -> (out: Vec<String>)
    ensures
        lines_view(out@) == spec_item_timing_lines(*state),
{
    let game_time = game_time_of(state);
    let minutes = div_trunc_i64(game_time as i64, 60);
    let net_worth: i64 = match &state.player {
        Option::Some(p) => match p.net_worth {
            Option::Some(n) => n as i64,
            Option::None => 0,
        },
        Option::None => 0,
    };
    let mut out: Vec<String> = Vec::new();
    out.push("Item Timing Analysis:".to_owned());
    let bench: Option<(i64, i64, &str)> = if minutes >= 30 {
        Some((30, 18000, "Third major item (Satanic/Butterfly)"))
    } else if minutes >= 20 {
        Some((20, 11000, "Second major item (BKB/Desolator)"))
    } else if minutes >= 15 {
        Some((15, 7000, "Core farming item (Battlefury/Maelstrom)"))
    } else if minutes >= 10 {
        Some((10, 4000, "Power Treads + Wraith Bands"))
    } else {
        None
    };
    match bench {
        Option::Some((bt, bn, items)) => {
            let diff: i64 = net_worth - bn;
            if diff >= 1000 {
                let mut line = "  You're ahead of item timings! +".to_owned();
                push_dec_i64(&mut line, diff);
                line.append(" gold");
                out.push(line);
            } else if diff >= -1000 {
                out.push("  You're on track with item timings".to_owned());
            } else {
                let mut line = "  You're behind on item timings: ".to_owned();
                push_dec_i64(&mut line, diff);
                line.append(" gold");
                out.push(line);
            }
            let mut bline = "  Current benchmark (".to_owned();
            push_dec_i64(&mut bline, bt);
            bline.append(" min): ");
            bline.append(items);
            out.push(bline);
            let next: Option<(i64, i64, &str)> = if minutes < 10 {
                Some((10, 4000, "Power Treads + Wraith Bands"))
            } else if minutes < 15 {
                Some((15, 7000, "Core farming item (Battlefury/Maelstrom)"))
            } else if minutes < 20 {
                Some((20, 11000, "Second major item (BKB/Desolator)"))
            } else if minutes < 30 {
                Some((30, 18000, "Third major item (Satanic/Butterfly)"))
            } else {
                None
            };
            match next {
                Option::Some((nt, nn, ni)) => {
                    let time_left: i64 = nt - minutes;
                    let gold_needed: i64 = nn - net_worth;
                    let mut nline = "  Next goal (".to_owned();
                    push_dec_i64(&mut nline, nt);
                    nline.append(" min): ");
                    nline.append(ni);
                    out.push(nline);
                    let mut gline = "  Need ".to_owned();
                    push_dec_i64(&mut gline, gold_needed);
                    gline.append(" gold in ");
                    push_dec_i64(&mut gline, time_left);
                    gline.append(" minutes (");
                    push_dec_i64(&mut gline, div_trunc_i64(gold_needed, time_left));
                    gline.append(" GPM)");
                    out.push(gline);
                },
                Option::None => {},
            }
        },
        Option::None => {
            out.push("  No item benchmarks available for current game time".to_owned());
        },
    }
    proof {
        assert(lines_view(out@) =~= spec_item_timing_lines(*state));
    }
    out
}


/// How many buildings in a team's list have a name containing the tower tag.
pub open spec fn spec_tower_count(bs: Seq<(String, crate::snapshot::Building)>) -> nat
    decreases bs.len(),
{
    if bs.len() == 0 {
        0
    } else {
        (if crate::text::contains_seq(bs[0].0@, "tower"@) {
            1nat
        } else {
            0nat
        }) + spec_tower_count(bs.skip(1))
    }
}

/// The first building list recorded under a team key, if any.
pub open spec fn spec_team_buildings(
    b: Seq<(String, Vec<(String, crate::snapshot::Building)>)>,
    key: Seq<char>,
) -> Option<Seq<(String, crate::snapshot::Building)>>
    decreases b.len(),
{
    if b.len() == 0 {
        Option::None
    } else if b[0].0@ == key {
        Option::Some(b[0].1@)
    } else {
        spec_team_buildings(b.skip(1), key)
    }
}

/// The towers a team has standing: zero when the snapshot has no list for it.
pub open spec fn spec_towers_of(s: GameState, key: Seq<char>) -> nat {
    match s.buildings {
        Option::Some(b) => match spec_team_buildings(b@, key) {
            Option::Some(bs) => spec_tower_count(bs),
            Option::None => 0,
        },
        Option::None => 0,
    }
}

/// Whether the snapshot's player is on the Radiant team.
pub open spec fn spec_is_radiant(s: GameState) -> bool {
    match s.player {
        Option::Some(p) => match p.team_name {
            Option::Some(n) => crate::text::lower_seq(n@) == "radiant"@,
            Option::None => false,
        },
        Option::None => false,
    }
}

/// The tower-advantage assessment line for a signed tower difference.
pub open spec fn spec_control_assessment(diff: int) -> Seq<char> {
    if diff >= 3 {
        "  Strong map control advantage. Consider aggressive warding."@
    } else if diff >= 1 {
        "  Slight map control advantage. Maintain pressure."@
    } else if diff == 0 {
        "  Even map control. Focus on objectives."@
    } else if diff >= -2 {
        "  Losing map control. Defend remaining towers."@
    } else {
        "  Significant map control disadvantage. Play defensively."@
    }
}

/// The map-control report: standing towers per side, an assessment of the
/// difference, and a tip matched to whichever side is ahead.
pub open spec fn spec_map_control_lines(s: GameState) -> Seq<Seq<char>> {
    seq!["Map Control Analysis:"@] + (match s.buildings {
        Option::Some(b) => {
            let rad = spec_towers_of(s, "radiant"@);
            let dire = spec_towers_of(s, "dire"@);
            let mine: nat = if spec_is_radiant(s) {
                rad
            } else {
                dire
            };
            let theirs: nat = if spec_is_radiant(s) {
                dire
            } else {
                rad
            };
            let diff = mine as int - theirs as int;
            seq![
                "  Your team has "@ + crate::text::dec_nat(mine) + " towers, enemy has "@
                    + crate::text::dec_nat(theirs) + " towers"@,
            ] + seq![spec_control_assessment(diff)] + (if diff < 0 {
                seq!["  Tip: When behind in towers, focus on smoke ganks and pick-offs."@]
            } else if diff > 0 {
                seq!["  Tip: Use your map control to secure Roshan and invade jungle."@]
            } else {
                Seq::<Seq<char>>::empty()
            })
        },
        Option::None => seq!["  Building data not available"@],
    })
}

/// Count the buildings whose name carries the tower tag.
fn count_towers(bs: &Vec<(String, crate::snapshot::Building)>) -> (r: u64)
    ensures
        r as nat == spec_tower_count(bs@),
{
    let n = bs.len();
    let mut cnt: usize = 0;
    let mut i: usize = 0;
    proof {
        assert(bs@.skip(0) =~= bs@);
    }
    while i < n
        invariant
            n == bs@.len(),
            i <= n,
            cnt <= i,
            cnt as nat + spec_tower_count(bs@.skip(i as int)) == spec_tower_count(bs@),
        decreases n - i,
    {
        proof {
            assert(bs@.skip(i as int)[0] == bs@[i as int]);
            assert(bs@.skip(i as int).skip(1) =~= bs@.skip(i as int + 1));
        }
        if crate::text::str_contains(bs[i].0.as_str(), "tower") {
            cnt += 1;
        }
        i += 1;
    }
    proof {
        assert(bs@.skip(n as int) =~= Seq::<(String, crate::snapshot::Building)>::empty());
    }
    cnt as u64
}

/// Count a team's standing towers in the snapshot.
fn towers_of(state: &GameState, key: &str) -> (r: u64)
    ensures
        r as nat == spec_towers_of(*state, key@),
{
    match &state.buildings {
        Option::Some(b) => {
            let n = b.len();
            let mut i: usize = 0;
            proof {
                assert(b@.skip(0) =~= b@);
            }
            while i < n
                invariant
                    n == b@.len(),
                    i <= n,
                    state.buildings == Option::Some(*b),
                    spec_team_buildings(b@, key@) == spec_team_buildings(
                        b@.skip(i as int),
                        key@,
                    ),
                decreases n - i,
            {
                proof {
                    assert(b@.skip(i as int)[0] == b@[i as int]);
                    assert(b@.skip(i as int).skip(1) =~= b@.skip(i as int + 1));
                }
                if crate::text::str_eq(b[i].0.as_str(), key) {
                    proof {
                        assert(spec_team_buildings(b@.skip(i as int), key@) == Option::Some(
                            b@[i as int].1@,
                        ));
                        assert(spec_team_buildings(b@, key@) == Option::Some(b@[i as int].1@));
                        assert(state.buildings == Option::Some(*b));
                        assert(spec_towers_of(*state, key@) == spec_tower_count(
                            b@[i as int].1@,
                        ));
                    }
                    return count_towers(&b[i].1);
                }
                i += 1;
            }
            proof {
                assert(b@.skip(n as int) =~= Seq::<
                    (String, Vec<(String, crate::snapshot::Building)>),
                >::empty());
            }
            0
        },
        Option::None => 0,
    }
}

/// Analyze map control: count each side's standing towers, assess the
/// difference from the player's side, and add a tip for whoever is ahead.
pub fn analyze_map_control(state: &GameState) -> (out: Vec<String>)
    ensures
        lines_view(out@) == spec_map_control_lines(*state),
{
    let mut out: Vec<String> = Vec::new();
    out.push("Map Control Analysis:".to_owned());
    match &state.buildings {
        Option::Some(_) => {
            let rad = towers_of(state, "radiant");
            let dire = towers_of(state, "dire");
            let radiant_player = match &state.player {
                Option::Some(p) => match &p.team_name {
                    Option::Some(n) => crate::snapshot::is_radiant_name(n.as_str()),
                    Option::None => false,
                },
                Option::None => false,
            };
            let mine: u64 = if radiant_player {
                rad
            } else {
                dire
            };
            let theirs: u64 = if radiant_player {
                dire
            } else {
                rad
            };
            let diff: i128 = mine as i128 - theirs as i128;
            let mut line = "  Your team has ".to_owned();
            crate::text::push_dec_u64(&mut line, mine);
            line.append(" towers, enemy has ");
            crate::text::push_dec_u64(&mut line, theirs);
            line.append(" towers");
            out.push(line);
            if diff >= 3 {
                out.push(
                    "  Strong map control advantage. Consider aggressive warding.".to_owned(),
                );
            } else if diff >= 1 {
                out.push("  Slight map control advantage. Maintain pressure.".to_owned());
            } else if diff == 0 {
                out.push("  Even map control. Focus on objectives.".to_owned());
            } else if diff >= -2 {
                out.push("  Losing map control. Defend remaining towers.".to_owned());
            } else {
                out.push(
                    "  Significant map control disadvantage. Play defensively.".to_owned(),
                );
            }
            if diff < 0 {
                out.push(
                    "  Tip: When behind in towers, focus on smoke ganks and pick-offs.".to_owned(),
                );
            } else if diff > 0 {
                out.push(
                    "  Tip: Use your map control to secure Roshan and invade jungle.".to_owned(),
                );
            }
        },
        Option::None => {
            out.push("  Building data not available".to_owned());
        },
    }
    proof {
        assert(lines_view(out@) =~= spec_map_control_lines(*state));
    }
    out
}


/// The player hero's map position, when the snapshot carries one.
pub open spec fn spec_hero_pos(s: GameState) -> Option<(i32, i32)> {
    match s.hero {
        Option::Some(h) => match (h.xpos, h.ypos) {
            (Option::Some(x), Option::Some(y)) => Option::Some((x, y)),
            _ => Option::None,
        },
        Option::None => Option::None,
    }
}

/// The report lines one prediction contributes: where the entity is likely to
/// be, plus a proximity warning when that position lies within two thousand
/// units of the player.
pub open spec fn spec_prediction_line_of(s: GameState, p: (Seq<char>, (int, int))) -> Seq<
    Seq<char>,
> {
    seq!["  "@ + p.0 + " likely at ("@ + dec_int(p.1.0) + ", "@ + dec_int(p.1.1) + ")"@]
        + (match spec_hero_pos(s) {
        Option::Some((hx, hy)) => {
            let dx = p.1.0 - hx as int;
            let dy = p.1.1 - hy as int;
            if dx * dx + dy * dy < 4000000 {
                seq!["    WARNING: This enemy may be very close to you!"@]
            } else {
                Seq::<Seq<char>>::empty()
            }
        },
        Option::None => Seq::<Seq<char>>::empty(),
    })
}

/// The prediction report lines, prediction by prediction in order.
pub open spec fn spec_prediction_lines(s: GameState, preds: Seq<(Seq<char>, (int, int))>) -> Seq<
    Seq<char>,
>
    decreases preds.len(),
{
    if preds.len() == 0 {
        Seq::empty()
    } else {
        spec_prediction_line_of(s, preds[0]) + spec_prediction_lines(s, preds.skip(1))
    }
}

proof fn lemma_prediction_lines_snoc(
    s: GameState,
    preds: Seq<(Seq<char>, (int, int))>,
    e: (Seq<char>, (int, int)),
)
    ensures
        spec_prediction_lines(s, preds.push(e)) == spec_prediction_lines(s, preds)
            + spec_prediction_line_of(s, e),
    decreases preds.len(),
{
    if preds.len() == 0 {
        let emp = Seq::<(Seq<char>, (int, int))>::empty();
        assert(preds.push(e)[0] == e);
        assert(preds.push(e).skip(1) =~= emp);
        assert(spec_prediction_lines(s, emp) == Seq::<Seq<char>>::empty());
        assert(spec_prediction_lines(s, preds) == Seq::<Seq<char>>::empty());
        assert(spec_prediction_lines(s, preds.push(e)) =~= spec_prediction_lines(s, preds)
            + spec_prediction_line_of(s, e));
    } else {
        assert(preds.push(e)[0] == preds[0]);
        assert(preds.push(e).skip(1) =~= preds.skip(1).push(e));
        lemma_prediction_lines_snoc(s, preds.skip(1), e);
        assert(spec_prediction_lines(s, preds.push(e)) =~= spec_prediction_lines(s, preds)
            + spec_prediction_line_of(s, e));
    }
}

/// The prediction block: a header and the per-prediction lines, or nothing at
/// all when there is no prediction to report.
pub open spec fn spec_prediction_block(s: GameState, preds: Seq<(Seq<char>, (int, int))>) -> Seq<
    Seq<char>,
> {
    if preds.len() == 0 {
        Seq::empty()
    } else {
        seq!["Enemy Movement Predictions:"@] + spec_prediction_lines(s, preds)
    }
}

/// Feed one snapshot to the position tracker and report on it: the movement
/// descriptions for recently seen entities, then the extrapolated positions
/// with a proximity warning for any predicted to be near the player.
pub fn track_enemies(state: &GameState, tracker: &mut EnemyPositionTracker) -> (out: Vec<String>)
    requires
        old(tracker).wf(),
    ensures
        final(tracker).wf(),
        spec_game_time_of(*state) <= old(tracker).last_game_time as int ==> *final(tracker)
            == *old(tracker),
        spec_game_time_of(*state) > old(tracker).last_game_time as int ==> {
            &&& final(tracker).last_game_time == spec_game_time32(*state)
            &&& final(tracker).view() == crate::tracker::apply_sightings(
                old(tracker).view(),
                spec_enemy_sightings(*state),
                spec_game_time32(*state),
            )
        },
        lines_view(out@) == spec_movement_lines(final(tracker).view(), spec_game_time_of(*state))
            + spec_prediction_block(
            *state,
            spec_predictions(final(tracker).view(), spec_game_time_of(*state)),
        ),
{
    tracker.update(state);
    let game_time = game_time_of(state);
    let mut out = tracker.describe_enemy_movements(game_time);
    let predictions = tracker.predict_movements(game_time);
    let ghost preds = crate::tracker::predictions_view(predictions@);
    let ghost base = lines_view(out@);
    if predictions.len() > 0 {
        out.push("Enemy Movement Predictions:".to_owned());
        let ghost header = lines_view(out@);
        let hero_pos: Option<(i32, i32)> = match &state.hero {
            Option::Some(h) => match (h.xpos, h.ypos) {
                (Option::Some(x), Option::Some(y)) => Some((x, y)),
                _ => None,
            },
            Option::None => None,
        };
        proof {
            assert(hero_pos == spec_hero_pos(*state));
            assert(preds.take(0) =~= Seq::<(Seq<char>, (int, int))>::empty());
            assert(header + spec_prediction_lines(*state, preds.take(0)) =~= header);
        }
        let n = predictions.len();
        let mut k: usize = 0;
        while k < n
            invariant
                n == predictions@.len(),
                preds.len() == n,
                k <= n,
                preds == crate::tracker::predictions_view(predictions@),
                hero_pos == spec_hero_pos(*state),
                forall|a: int|
                    0 <= a < predictions@.len() ==> -0x2000000000
                        <= #[trigger] predictions@[a].1.0 <= 0x2000000000 && -0x2000000000
                        <= predictions@[a].1.1 <= 0x2000000000,
                lines_view(out@) == header + spec_prediction_lines(
                    *state,
                    preds.take(k as int),
                ),
            decreases n - k,
        {
            let ghost prefix = preds.take(k as int);
            let ghost entry = preds[k as int];
            let ghost before = lines_view(out@);
            proof {
                assert(preds[k as int] == (
                    predictions@[k as int].0@,
                    (
                        predictions@[k as int].1.0 as int,
                        predictions@[k as int].1.1 as int,
                    ),
                ));
            }
            let px: i64 = predictions[k].1.0;
            let py: i64 = predictions[k].1.1;
            let mut line = "  ".to_owned();
            line.append(predictions[k].0.as_str());
            line.append(" likely at (");
            push_dec_i64(&mut line, px);
            line.append(", ");
            push_dec_i64(&mut line, py);
            line.append(")");
            out.push(line);
            match hero_pos {
                Option::Some((hx, hy)) => {
                    let dx: i64 = px - hx as i64;
                    let dy: i64 = py - hy as i64;
                    proof {
                        assert(0 <= dx * dx <= 0x2100000000 * 0x2100000000) by (nonlinear_arith)
                            requires -0x2100000000 <= dx <= 0x2100000000;
                        assert(0 <= dy * dy <= 0x2100000000 * 0x2100000000) by (nonlinear_arith)
                            requires -0x2100000000 <= dy <= 0x2100000000;
                    }
                    let d2: i128 = (dx as i128) * (dx as i128) + (dy as i128) * (dy as i128);
                    if d2 < 4000000 {
                        out.push("    WARNING: This enemy may be very close to you!".to_owned());
                    }
                },
                Option::None => {},
            }
            proof {
                lemma_prediction_lines_snoc(*state, prefix, entry);
                assert(prefix.push(entry) =~= preds.take(k as int + 1));
                assert(lines_view(out@) =~= before + spec_prediction_line_of(*state, entry));
            }
            k += 1;
        }
        proof {
            assert(preds.take(n as int) =~= preds);
            assert(lines_view(out@) =~= base + spec_prediction_block(*state, preds));
        }
    } else {
        proof {
            assert(preds.len() == 0);
            assert(lines_view(out@) =~= base + spec_prediction_block(*state, preds));
        }
    }
    out
}

/// Copy every line of the source to the end of the output.
fn append_lines(out: &mut Vec<String>, src: &Vec<String>)
    ensures
        lines_view(final(out)@) == lines_view(old(out)@) + lines_view(src@),
{
    let n = src.len();
    let mut i: usize = 0;
    proof {
        assert(lines_view(src@).take(0) =~= Seq::<Seq<char>>::empty());
        assert(lines_view(out@) + lines_view(src@).take(0) =~= lines_view(out@));
    }
    while i < n
        invariant
            n == src@.len(),
            i <= n,
            lines_view(src@).len() == n,
            lines_view(out@) == lines_view(old(out)@) + lines_view(src@).take(i as int),
        decreases n - i,
    {
        let s = src[i].clone();
        proof {
            assert(lines_view(src@)[i as int] == src@[i as int]@);
        }
        out.push(s);
        proof {
            assert(lines_view(out@) =~= lines_view(old(out)@) + lines_view(src@).take(
                i as int + 1,
            ));
        }
        i += 1;
    }
    proof {
        assert(lines_view(src@).take(n as int) =~= lines_view(src@));
    }
}

/// Compose the full advisory report from the latest snapshot and the three
/// components' outputs, in order: engagement status, enemy tracking and
/// predictions, performance metrics, and the phase advisory block.
pub fn compose_insights(
    state: &GameState,
    engagement: &Vec<String>,
    tracking: &Vec<String>,
    metrics: &Vec<String>,
    enemy_heroes: &Vec<(String, EnemyHero)>,
) -> (out: Vec<String>)
    ensures
        lines_view(out@) == lines_view(engagement@) + lines_view(tracking@) + lines_view(
            metrics@,
        ) + spec_coaching_lines(*state, enemy_heroes@),
{
    let mut out: Vec<String> = Vec::new();
    proof {
        assert(lines_view(out@) =~= Seq::<Seq<char>>::empty());
    }
    append_lines(&mut out, engagement);
    append_lines(&mut out, tracking);
    append_lines(&mut out, metrics);
    let mut coaching = generate_coaching_insights(state, enemy_heroes);
    let ghost done = lines_view(out@);
    let ghost extra = lines_view(coaching@);
    out.append(&mut coaching);
    proof {
        assert(lines_view(out@) =~= done + extra);
        assert(lines_view(out@) =~= lines_view(engagement@) + lines_view(tracking@) + lines_view(
            metrics@,
        ) + spec_coaching_lines(*state, enemy_heroes@));
    }
    out
}


/// The snapshot-overview lines for the map section: clock, state, and score.
pub open spec fn spec_map_info_lines(s: GameState) -> Seq<Seq<char>> {
    match s.map {
        Option::Some(m) => seq![
            "Game Time: "@ + crate::text::spec_game_time(m.game_time),
            "Game State: "@ + (match m.game_state {
                Option::Some(gs) => gs@,
                Option::None => "Unknown"@,
            }),
            "Score: "@ + dec_int(
                match m.radiant_score {
                    Option::Some(r) => r as int,
                    Option::None => 0,
                },
            ) + " Radiant - "@ + dec_int(
                match m.dire_score {
                    Option::Some(d) => d as int,
                    Option::None => 0,
                },
            ) + " Dire"@,
        ],
        Option::None => Seq::empty(),
    }
}

/// The snapshot-overview lines for the player section.
pub open spec fn spec_player_info_lines(s: GameState) -> Seq<Seq<char>> {
    match s.player {
        Option::Some(p) => seq![
            "Player Information:"@,
            "Name: "@ + (match p.name {
                Option::Some(n) => n@,
                Option::None => "Unknown"@,
            }),
            "Team: "@ + (match p.team_name {
                Option::Some(t) => if t@ == "radiant"@ {
                    "Radiant"@
                } else if t@ == "dire"@ {
                    "Dire"@
                } else {
                    "Unknown"@
                },
                Option::None => "Unknown"@,
            }),
            "KDA: "@ + dec_int(
                match p.kills {
                    Option::Some(k) => k as int,
                    Option::None => 0,
                },
            ) + "/"@ + dec_int(
                match p.deaths {
                    Option::Some(d) => d as int,
                    Option::None => 0,
                },
            ) + "/"@ + dec_int(
                match p.assists {
                    Option::Some(a) => a as int,
                    Option::None => 0,
                },
            ),
            "Net Worth: "@ + dec_int(
                match p.net_worth {
                    Option::Some(n) => n as int,
                    Option::None => 0,
                },
            ),
        ],
        Option::None => Seq::empty(),
    }
}

/// The snapshot-overview lines for the hero section.
pub open spec fn spec_hero_info_lines(s: GameState) -> Seq<Seq<char>> {
    match s.hero {
        Option::Some(h) => seq![
            "Hero Information:"@,
            "Hero: "@ + crate::text::spec_hero_name(
                match h.name {
                    Option::Some(n) => n@,
                    Option::None => "Unknown"@,
                },
            ) + ", Level: "@ + dec_int(
                match h.level {
                    Option::Some(l) => l as int,
                    Option::None => 0,
                },
            ),
        ] + (match h.health_percent {
            Option::Some(hp) => seq!["Health: "@ + dec_int(hp as int) + "%"@],
            Option::None => Seq::<Seq<char>>::empty(),
        }) + (match h.mana_percent {
            Option::Some(mp) => seq!["Mana: "@ + dec_int(mp as int) + "%"@],
            Option::None => Seq::<Seq<char>>::empty(),
        }),
        Option::None => Seq::empty(),
    }
}

/// The per-item lines of a known-items list.
pub open spec fn spec_item_lines(items: Seq<String>) -> Seq<Seq<char>>
    decreases items.len(),
{
    if items.len() == 0 {
        Seq::empty()
    } else {
        seq!["    - "@ + items[0]@] + spec_item_lines(items.skip(1))
    }
}

/// The overview lines one tracked enemy contributes: identity and estimated
/// level, recency, position, known items when any, and a separating blank.
pub open spec fn spec_enemy_info_of(e: EnemyHero) -> Seq<Seq<char>> {
    seq![
        "Hero: "@ + e.name@ + " (Est. Level: "@ + dec_int(e.estimated_level as int) + ")"@,
        "  Last seen: "@ + crate::text::spec_game_time(Some(e.last_seen)),
        "  Position: ("@ + dec_int(e.position.0 as int) + ", "@ + dec_int(
            e.position.1 as int,
        ) + ")"@,
    ] + (if e.items@.len() > 0 {
        seq!["  Estimated items:"@] + spec_item_lines(e.items@)
    } else {
        Seq::<Seq<char>>::empty()
    }) + seq![""@]
}

/// The overview lines of all tracked enemies, in order.
pub open spec fn spec_enemy_info_lines(v: Seq<(String, EnemyHero)>) -> Seq<Seq<char>>
    decreases v.len(),
{
    if v.len() == 0 {
        Seq::empty()
    } else {
        spec_enemy_info_of(v[0].1) + spec_enemy_info_lines(v.skip(1))
    }
}

proof fn lemma_enemy_info_snoc(v: Seq<(String, EnemyHero)>, e: (String, EnemyHero))
    ensures
        spec_enemy_info_lines(v.push(e)) == spec_enemy_info_lines(v) + spec_enemy_info_of(e.1),
    decreases v.len(),
{
    if v.len() == 0 {
        let emp = Seq::<(String, EnemyHero)>::empty();
        assert(v.push(e)[0] == e);
        assert(v.push(e).skip(1) =~= emp);
        assert(spec_enemy_info_lines(emp) == Seq::<Seq<char>>::empty());
        assert(spec_enemy_info_lines(v) == Seq::<Seq<char>>::empty());
        assert(spec_enemy_info_lines(v.push(e)) =~= spec_enemy_info_lines(v)
            + spec_enemy_info_of(e.1));
    } else {
        assert(v.push(e)[0] == v[0]);
        assert(v.push(e).skip(1) =~= v.skip(1).push(e));
        lemma_enemy_info_snoc(v.skip(1), e);
        assert(spec_enemy_info_lines(v.push(e)) =~= spec_enemy_info_lines(v)
            + spec_enemy_info_of(e.1));
    }
}

/// The whole snapshot overview: title, map, player and hero sections, then
/// the tracked enemies or a placeholder when none are known.
pub open spec fn spec_game_info_lines(s: GameState, enemies: Seq<(String, EnemyHero)>) -> Seq<
    Seq<char>,
> {
    seq!["Dota 2 Coach - Live Game Assistant"@] + spec_map_info_lines(s)
        + spec_player_info_lines(s) + spec_hero_info_lines(s) + seq!["Enemy Heroes:"@] + (
    if enemies.len() == 0 {
        seq!["No enemy heroes detected yet"@]
    } else {
        spec_enemy_info_lines(enemies)
    })
}

/// The map section of the overview.
fn map_info_block(s: &GameState) -> (out: Vec<String>)
    ensures
        lines_view(out@) == spec_map_info_lines(*s),
{
    let mut out: Vec<String> = Vec::new();
    match &s.map {
        Option::Some(m) => {
            let mut tline = "Game Time: ".to_owned();
            let formatted = crate::text::format_game_time(m.game_time);
            tline.append(formatted.as_str());
            out.push(tline);
            let mut gline = "Game State: ".to_owned();
            match &m.game_state {
                Option::Some(gs) => gline.append(gs.as_str()),
                Option::None => gline.append("Unknown"),
            }
            out.push(gline);
            let mut sline = "Score: ".to_owned();
            push_dec_i64(&mut sline, m.radiant_score.unwrap_or(0) as i64);
            sline.append(" Radiant - ");
            push_dec_i64(&mut sline, m.dire_score.unwrap_or(0) as i64);
            sline.append(" Dire");
            out.push(sline);
        },
        Option::None => {},
    }
    proof {
        assert(lines_view(out@) =~= spec_map_info_lines(*s));
    }
    out
}

/// The player section of the overview.
fn player_info_block(s: &GameState) -> (out: Vec<String>)
    ensures
        lines_view(out@) == spec_player_info_lines(*s),
{
    let mut out: Vec<String> = Vec::new();
    match &s.player {
        Option::Some(p) => {
            out.push("Player Information:".to_owned());
            let mut nline = "Name: ".to_owned();
            match &p.name {
                Option::Some(n) => nline.append(n.as_str()),
                Option::None => nline.append("Unknown"),
            }
            out.push(nline);
            let mut tline = "Team: ".to_owned();
            match &p.team_name {
                Option::Some(t) => {
                    if crate::text::str_eq(t.as_str(), "radiant") {
                        tline.append("Radiant");
                    } else if crate::text::str_eq(t.as_str(), "dire") {
                        tline.append("Dire");
                    } else {
                        tline.append("Unknown");
                    }
                },
                Option::None => tline.append("Unknown"),
            }
            out.push(tline);
            let mut kline = "KDA: ".to_owned();
            push_dec_i64(&mut kline, p.kills.unwrap_or(0) as i64);
            kline.append("/");
            push_dec_i64(&mut kline, p.deaths.unwrap_or(0) as i64);
            kline.append("/");
            push_dec_i64(&mut kline, p.assists.unwrap_or(0) as i64);
            out.push(kline);
            let mut wline = "Net Worth: ".to_owned();
            push_dec_i64(&mut wline, p.net_worth.unwrap_or(0) as i64);
            out.push(wline);
        },
        Option::None => {},
    }
    proof {
        assert(lines_view(out@) =~= spec_player_info_lines(*s));
    }
    out
}

/// The hero section of the overview.
fn hero_info_block(s: &GameState) -> (out: Vec<String>)
    ensures
        lines_view(out@) == spec_hero_info_lines(*s),
{
    let mut out: Vec<String> = Vec::new();
    match &s.hero {
        Option::Some(h) => {
            out.push("Hero Information:".to_owned());
            let mut hline = "Hero: ".to_owned();
            let pretty = match &h.name {
                Option::Some(n) => crate::text::format_hero_name(n.as_str()),
                Option::None => crate::text::format_hero_name("Unknown"),
            };
            hline.append(pretty.as_str());
            hline.append(", Level: ");
            push_dec_i64(&mut hline, h.level.unwrap_or(0) as i64);
            out.push(hline);
            match h.health_percent {
                Option::Some(hp) => {
                    let mut line = "Health: ".to_owned();
                    push_dec_i64(&mut line, hp as i64);
                    line.append("%");
                    out.push(line);
                },
                Option::None => {},
            }
            match h.mana_percent {
                Option::Some(mp) => {
                    let mut line = "Mana: ".to_owned();
                    push_dec_i64(&mut line, mp as i64);
                    line.append("%");
                    out.push(line);
                },
                Option::None => {},
            }
        },
        Option::None => {},
    }
    proof {
        assert(lines_view(out@) =~= spec_hero_info_lines(*s));
    }
    out
}

/// The overview lines for one tracked enemy.
fn enemy_info_block(name_hero: &(String, EnemyHero)) -> (out: Vec<String>)
    ensures
        lines_view(out@) == spec_enemy_info_of(name_hero.1),
{
    let e = &name_hero.1;
    let mut out: Vec<String> = Vec::new();
    let mut line1 = "Hero: ".to_owned();
    line1.append(e.name.as_str());
    line1.append(" (Est. Level: ");
    push_dec_i64(&mut line1, e.estimated_level as i64);
    line1.append(")");
    out.push(line1);
    let mut line2 = "  Last seen: ".to_owned();
    let formatted = crate::text::format_game_time(Some(e.last_seen));
    line2.append(formatted.as_str());
    out.push(line2);
    let mut line3 = "  Position: (".to_owned();
    push_dec_i64(&mut line3, e.position.0 as i64);
    line3.append(", ");
    push_dec_i64(&mut line3, e.position.1 as i64);
    line3.append(")");
    out.push(line3);
    let ghost head = lines_view(out@);
    if e.items.len() > 0 {
        out.push("  Estimated items:".to_owned());
        let ghost base = lines_view(out@);
        let n = e.items.len();
        let mut k: usize = 0;
        proof {
            assert(e.items@.skip(0) =~= e.items@);
            assert(base + spec_item_lines(e.items@.skip(0)) == lines_view(out@)
                + spec_item_lines(e.items@));
        }
        while k < n
            invariant
                n == e.items@.len(),
                k <= n,
                lines_view(out@) + spec_item_lines(e.items@.skip(k as int)) == base
                    + spec_item_lines(e.items@),
            decreases n - k,
        {
            let ghost before = lines_view(out@);
            proof {
                assert(e.items@.skip(k as int)[0] == e.items@[k as int]);
                assert(e.items@.skip(k as int).skip(1) =~= e.items@.skip(k as int + 1));
            }
            let mut iline = "    - ".to_owned();
            iline.append(e.items[k].as_str());
            out.push(iline);
            proof {
                assert(lines_view(out@) =~= before + seq!["    - "@ + e.items@[k as int]@]);
                assert(lines_view(out@) + spec_item_lines(e.items@.skip(k as int + 1)) =~= base
                    + spec_item_lines(e.items@));
            }
            k += 1;
        }
        proof {
            assert(e.items@.skip(n as int) =~= Seq::<String>::empty());
            assert(spec_item_lines(e.items@.skip(n as int)) == Seq::<Seq<char>>::empty());
            assert(lines_view(out@) + Seq::<Seq<char>>::empty() =~= lines_view(out@));
        }
    }
    out.push("".to_owned());
    proof {
        assert(lines_view(out@) =~= spec_enemy_info_of(name_hero.1));
    }
    out
}

/// Present the snapshot and the accumulated enemy knowledge as plain overview
/// lines: clock and score, the player's identity and record, the hero's state,
/// and everything known about each tracked enemy.
pub fn display_game_info(state: &GameState, enemy_heroes: &Vec<(String, EnemyHero)>) -> (out: Vec<
    String,
>)
    ensures
        lines_view(out@) == spec_game_info_lines(*state, enemy_heroes@),
{
    let mut out: Vec<String> = Vec::new();
    out.push("Dota 2 Coach - Live Game Assistant".to_owned());
    let mut m = map_info_block(state);
    let ghost l0 = lines_view(out@);
    let ghost a0 = lines_view(m@);
    out.append(&mut m);
    proof {
        assert(lines_view(out@) =~= l0 + a0);
    }
    let mut p = player_info_block(state);
    let ghost l1 = lines_view(out@);
    let ghost a1 = lines_view(p@);
    out.append(&mut p);
    proof {
        assert(lines_view(out@) =~= l1 + a1);
    }
    let mut h = hero_info_block(state);
    let ghost l2 = lines_view(out@);
    let ghost a2 = lines_view(h@);
    out.append(&mut h);
    proof {
        assert(lines_view(out@) =~= l2 + a2);
    }
    out.push("Enemy Heroes:".to_owned());
    let ghost l3 = lines_view(out@);
    if enemy_heroes.len() == 0 {
        out.push("No enemy heroes detected yet".to_owned());
        proof {
            assert(lines_view(out@) =~= spec_game_info_lines(*state, enemy_heroes@));
        }
    } else {
        let n = enemy_heroes.len();
        let mut k: usize = 0;
        proof {
            assert(enemy_heroes@.take(0) =~= Seq::<(String, EnemyHero)>::empty());
            assert(l3 + spec_enemy_info_lines(enemy_heroes@.take(0)) =~= l3);
        }
        while k < n
            invariant
                n == enemy_heroes@.len(),
                k <= n,
                lines_view(out@) == l3 + spec_enemy_info_lines(enemy_heroes@.take(k as int)),
            decreases n - k,
        {
            let ghost prefix = enemy_heroes@.take(k as int);
            let ghost entry = enemy_heroes@[k as int];
            let ghost before = lines_view(out@);
            let mut block = enemy_info_block(&enemy_heroes[k]);
            let ghost add = lines_view(block@);
            out.append(&mut block);
            proof {
                lemma_enemy_info_snoc(prefix, entry);
                assert(prefix.push(entry) =~= enemy_heroes@.take(k as int + 1));
                assert(lines_view(out@) =~= before + add);
            }
            k += 1;
        }
        proof {
            assert(enemy_heroes@.take(n as int) =~= enemy_heroes@);
            assert(lines_view(out@) =~= spec_game_info_lines(*state, enemy_heroes@));
        }
    }
    out
}

} // verus!