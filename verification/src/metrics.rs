//! Rolling performance metrics for the locally tracked entity: bounded
//! (game-clock, value) series for resource rate, experience rate, and
//! last-hit count, compared against rolling means and phase benchmarks.
//!
//! Each series is capped at a fixed maximum length with oldest-first
//! eviction, and a snapshot whose clock does not advance past the last
//! sampled clock is discarded whole.

use vstd::prelude::*;
use vstd::math::abs;
use crate::snapshot::{GameState, spec_game_time32, spec_game_time_of, game_time_of};
use crate::fights::{spec_death_transition, spec_prev};
use crate::text::{div_trunc, rem_trunc, div_trunc_i64, rem_trunc_i64, dec_int, dec_nat,
    push_dec_i64, push_dec_u64, lines_view};

verus! {

broadcast use vstd::seq::Seq::lemma_push_map_commute;

/// The longest sample series kept per metric; older samples are evicted.
pub const SERIES_CAP: usize = 20;

/// Rolling (game-clock, value) series for the tracked entity's metrics.
pub struct HeroPerformanceTracker {
    /// Resource-rate samples (gold per minute).
    pub gpm_samples: Vec<(i32, i32)>,
    /// Experience-rate samples (experience per minute).
    pub xpm_samples: Vec<(i32, i32)>,
    /// Cumulative last-hit count samples.
    pub last_hits_samples: Vec<(i32, i32)>,
    /// The clock of the tracked entity's most recent death.
    pub last_death_time: i32,
    /// How many deaths have been observed; saturates at the counter maximum.
    pub death_count: u64,
    /// The clock of the last snapshot that was sampled (not discarded).
    pub last_sample_time: i32,
}

/// A series is well formed relative to a clock bound: within the cap,
/// non-decreasing in time, and nothing later than the bound.
pub open spec fn wf_series(s: Seq<(i32, i32)>, last: int) -> bool {
    &&& s.len() <= SERIES_CAP
    &&& forall|i: int, j: int| 0 <= i <= j < s.len() ==> s[i].0 as int <= s[j].0 as int
    &&& forall|i: int| 0 <= i < s.len() ==> s[i].0 as int <= last
}

/// A series with one more sample, evicting the oldest when over the cap.
pub open spec fn push_capped_sample(s: Seq<(i32, i32)>, t: i32, v: i32) -> Seq<(i32, i32)> {
    let s2 = s.push((t, v));
    if s2.len() > SERIES_CAP {
        s2.skip(1)
    } else {
        s2
    }
}

/// A series after one update: one sample appended when the metric is present,
/// unchanged when it is absent.
pub open spec fn spec_metric_sample(s: Seq<(i32, i32)>, t: i32, v: Option<i32>) -> Seq<(i32, i32)> {
    match v {
        Option::Some(x) => push_capped_sample(s, t, x),
        Option::None => s,
    }
}

/// The snapshot's resource rate, when its player section carries one.
pub open spec fn spec_gpm(s: GameState) -> Option<i32> {
    match s.player {
        Option::Some(p) => p.gpm,
        Option::None => Option::None,
    }
}

/// The snapshot's experience rate, when its player section carries one.
pub open spec fn spec_xpm(s: GameState) -> Option<i32> {
    match s.player {
        Option::Some(p) => p.xpm,
        Option::None => Option::None,
    }
}

/// The snapshot's last-hit count, when its player section carries one.
pub open spec fn spec_last_hits(s: GameState) -> Option<i32> {
    match s.player {
        Option::Some(p) => p.last_hits,
        Option::None => Option::None,
    }
}

/// The sum of a series' values.
pub open spec fn sum_values(s: Seq<(i32, i32)>) -> int
    decreases s.len(),
{
    if s.len() == 0 {
        0
    } else {
        s[0].1 + sum_values(s.skip(1))
    }
}

/// The truncating mean of a series' values.
pub open spec fn spec_mean(s: Seq<(i32, i32)>) -> int {
    div_trunc(sum_values(s), s.len() as int)
}

/// The trend lines for the resource-rate series: significant beyond a hundred
/// from the mean, mild beyond twenty, nothing when flat.
pub open spec fn spec_gpm_trend(cur: int, avg: int) -> Seq<Seq<char>> {
    if cur >= avg + 100 {
        seq!["    GPM trending up significantly!"@]
    } else if cur >= avg + 20 {
        seq!["    GPM trending up"@]
    } else if cur <= avg - 100 {
        seq!["    GPM trending down significantly"@]
    } else if cur <= avg - 20 {
        seq!["    GPM trending down"@]
    } else {
        Seq::empty()
    }
}

/// The resource-rate block: current value, rolling mean, and trend — only
/// once two samples exist.
pub open spec fn spec_gpm_lines(g: Seq<(i32, i32)>) -> Seq<Seq<char>> {
    if g.len() >= 2 {
        let cur = g[g.len() - 1].1 as int;
        let avg = spec_mean(g);
        seq!["  GPM: "@ + dec_int(cur) + " (Avg: "@ + dec_int(avg) + ")"@] + spec_gpm_trend(
            cur,
            avg,
        )
    } else {
        Seq::empty()
    }
}

/// The experience-rate block: the current value, once two samples exist.
pub open spec fn spec_xpm_lines(x: Seq<(i32, i32)>) -> Seq<Seq<char>> {
    if x.len() >= 2 {
        seq!["  XPM: "@ + dec_int(x[x.len() - 1].1 as int)]
    } else {
        Seq::empty()
    }
}

/// The last-hit benchmark line: early-game thresholds before the ten-minute
/// mark, tighter ones after; comparisons are exact on the rational rate.
pub open spec fn spec_cs_bench(cur: int, minutes: int) -> Seq<Seq<char>> {
    if minutes < 10 {
        if cur >= 7 * minutes {
            seq!["    Excellent early game CS"@]
        } else if cur >= 5 * minutes {
            seq!["    Good early game CS"@]
        } else if cur < 3 * minutes {
            seq!["    Early game CS needs improvement"@]
        } else {
            Seq::empty()
        }
    } else {
        if cur >= 8 * minutes {
            seq!["    Excellent CS"@]
        } else if cur >= 6 * minutes {
            seq!["    Good CS"@]
        } else if cur < 4 * minutes {
            seq!["    CS needs improvement"@]
        } else {
            Seq::empty()
        }
    }
}

/// The last-hit block: the rate per minute to one decimal place (truncating)
/// and its benchmark line — only once two samples exist and at least one full
/// minute has passed.
pub open spec fn spec_cs_lines(lh: Seq<(i32, i32)>, now: int) -> Seq<Seq<char>> {
    if lh.len() >= 2 {
        let minutes = div_trunc(now, 60);
        if minutes > 0 {
            let cur = lh[lh.len() - 1].1 as int;
            let cs10 = div_trunc(cur * 10, minutes);
            seq![
                "  CS/min: "@ + dec_int(div_trunc(cs10, 10)) + "."@ + dec_int(
                    abs(rem_trunc(cs10, 10)) as int,
                ),
            ] + spec_cs_bench(cur, minutes)
        } else {
            Seq::empty()
        }
    } else {
        Seq::empty()
    }
}

/// The death block: the death count; a caution line when deaths exceed one
/// per five minutes; a streak line after five quiet minutes.
pub open spec fn spec_death_lines(dc: u64, last_death: int, now: int) -> Seq<Seq<char>> {
    if dc > 0 {
        let minutes = div_trunc(now, 60);
        seq!["  Deaths: "@ + dec_nat(dc as nat)] + (if minutes > 0 && 5 * dc as int > minutes {
            seq!["    High death rate, play more cautiously"@]
        } else {
            Seq::<Seq<char>>::empty()
        }) + (if now - last_death > 300 {
            seq![
                "    Good survival streak: "@ + dec_int(div_trunc(now - last_death, 60))
                    + " minutes without dying"@,
            ]
        } else {
            Seq::<Seq<char>>::empty()
        })
    } else {
        seq!["  Deaths: 0 - Excellent survival!"@]
    }
}

/// The whole performance report at a clock.
pub open spec fn spec_performance_lines(m: HeroPerformanceTracker, now: int) -> Seq<Seq<char>> {
    seq!["Hero Performance Metrics:"@] + spec_gpm_lines(m.gpm_samples@) + spec_xpm_lines(
        m.xpm_samples@,
    ) + spec_cs_lines(m.last_hits_samples@, now) + spec_death_lines(
        m.death_count,
        m.last_death_time as int,
        now,
    )
}

/// Append one sample to a series, evicting the oldest over the cap.
fn push_sample(series: &mut Vec<(i32, i32)>, t: i32, v: i32)
    ensures
        final(series)@ == push_capped_sample(old(series)@, t, v),
{
    series.push((t, v));
    if series.len() > SERIES_CAP {
        series.remove(0);
        proof {
            assert(series@ =~= push_capped_sample(old(series)@, t, v));
        }
    }
}

/// Sum a series' values.
fn sum_series(series: &Vec<(i32, i32)>) -> (r: i64)
    requires
        series@.len() <= SERIES_CAP,
    ensures
        r as int == sum_values(series@),
        -42949672960 <= r <= 42949672960,
{
    let n = series.len();
    let mut acc: i64 = 0;
    let mut i: usize = 0;
    proof {
        assert(series@.skip(0) =~= series@);
    }
    while i < n
        invariant
            n == series@.len(),
            n <= SERIES_CAP,
            i <= n,
            -0x80000000i64 * i as i64 <= acc <= 0x80000000i64 * i as i64,
            acc as int + sum_values(series@.skip(i as int)) == sum_values(series@),
        decreases n - i,
    {
        proof {
            assert(series@.skip(i as int)[0] == series@[i as int]);
            assert(series@.skip(i as int).skip(1) =~= series@.skip(i as int + 1));
        }
        acc = acc + series[i].1 as i64;
        i += 1;
    }
    proof {
        assert(series@.skip(n as int) =~= Seq::<(i32, i32)>::empty());
    }
    acc
}

impl HeroPerformanceTracker {
    /// The sampler's invariant: every series within the cap, non-decreasing
    /// in time, and nothing later than the last sampled clock.
    pub open spec fn wf(&self) -> bool {
        &&& wf_series(self.gpm_samples@, self.last_sample_time as int)
        &&& wf_series(self.xpm_samples@, self.last_sample_time as int)
        &&& wf_series(self.last_hits_samples@, self.last_sample_time as int)
    }

    /// A fresh sampler: empty series, no deaths, clocks at zero.
    pub fn new() -> (m: Self)
        ensures
            m.gpm_samples@ == Seq::<(i32, i32)>::empty(),
            m.xpm_samples@ == Seq::<(i32, i32)>::empty(),
            m.last_hits_samples@ == Seq::<(i32, i32)>::empty(),
            m.last_death_time == 0,
            m.death_count == 0,
            m.last_sample_time == 0,
            m.wf(),
    {
        let m = HeroPerformanceTracker {
            gpm_samples: Vec::new(),
            xpm_samples: Vec::new(),
            last_hits_samples: Vec::new(),
            last_death_time: 0,
            death_count: 0,
            last_sample_time: 0,
        };
        proof {
            assert(m.gpm_samples@ =~= Seq::<(i32, i32)>::empty());
            assert(m.xpm_samples@ =~= Seq::<(i32, i32)>::empty());
            assert(m.last_hits_samples@ =~= Seq::<(i32, i32)>::empty());
        }
        m
    }

    /// Feed one snapshot together with its predecessor. A snapshot whose
    /// clock does not advance past the last sampled clock is discarded and
    /// nothing changes; otherwise each metric the snapshot carries appends
    /// one sample to its series (subject to the cap), an alive-to-dead
    /// transition of the tracked hero is counted, and the last sampled clock
    /// becomes the snapshot's clock.
    pub fn update(&mut self, state: &GameState, last_state: Option<&GameState>)
        requires
            old(self).wf(),
        ensures
            final(self).wf(),
            spec_game_time_of(*state) <= old(self).last_sample_time as int ==> *final(self)
                == *old(self),
            spec_game_time_of(*state) > old(self).last_sample_time as int ==> {
                &&& final(self).gpm_samples@ == spec_metric_sample(
                    old(self).gpm_samples@,
                    spec_game_time32(*state),
                    spec_gpm(*state),
                )
                &&& final(self).xpm_samples@ == spec_metric_sample(
                    old(self).xpm_samples@,
                    spec_game_time32(*state),
                    spec_xpm(*state),
                )
                &&& final(self).last_hits_samples@ == spec_metric_sample(
                    old(self).last_hits_samples@,
                    spec_game_time32(*state),
                    spec_last_hits(*state),
                )
                &&& final(self).last_death_time == if spec_death_transition(
                    *state,
                    spec_prev(last_state),
                ) {
                    spec_game_time32(*state)
                } else {
                    old(self).last_death_time
                }
                &&& final(self).death_count as int == if spec_death_transition(
                    *state,
                    spec_prev(last_state),
                ) {
                    if old(self).death_count == u64::MAX {
                        u64::MAX as int
                    } else {
                        old(self).death_count + 1
                    }
                } else {
                    old(self).death_count as int
                }
                &&& final(self).last_sample_time == spec_game_time32(*state)
            },
    {
        let game_time = game_time_of(state);
        if game_time <= self.last_sample_time {
            return;
        }
        match &state.player {
            Option::Some(p) => {
                match p.gpm {
                    Option::Some(v) => push_sample(&mut self.gpm_samples, game_time, v),
                    Option::None => {},
                }
                match p.xpm {
                    Option::Some(v) => push_sample(&mut self.xpm_samples, game_time, v),
                    Option::None => {},
                }
                match p.last_hits {
                    Option::Some(v) => push_sample(&mut self.last_hits_samples, game_time, v),
                    Option::None => {},
                }
            },
            Option::None => {},
        }
        match (&state.hero, last_state) {
            (Option::Some(ch), Option::Some(ls)) => {
                match &ls.hero {
                    Option::Some(lh) => {
                        let was_alive = lh.alive.unwrap_or(true);
                        let is_alive = ch.alive.unwrap_or(true);
                        if was_alive && !is_alive {
                            self.last_death_time = game_time;
                            if self.death_count < u64::MAX {
                                self.death_count = self.death_count + 1;
                            }
                        }
                    },
                    Option::None => {},
                }
            },
            _ => {},
        }
        self.last_sample_time = game_time;
    }

    /// The performance report at a clock: for each series with two or more
    /// samples its latest value against the rolling mean, the last-hit rate
    /// against phase benchmarks, and the death record.
    pub fn display_performance_metrics(&self, game_time: i32) -> (out: Vec<String>)
        requires
            self.wf(),
        ensures
            lines_view(out@) == spec_performance_lines(*self, game_time as int),
    {
        let mut out: Vec<String> = Vec::new();
        out.push("Hero Performance Metrics:".to_owned());
        let ghost l0 = lines_view(out@);
        proof {
            assert(l0 =~= seq!["Hero Performance Metrics:"@]);
        }
        let mut g = gpm_block(&self.gpm_samples);
        out.append(&mut g);
        proof {
            lemma_lines_view_add(out@);
        }
        let ghost l1 = lines_view(out@);
        let mut x = xpm_block(&self.xpm_samples);
        out.append(&mut x);
        proof {
            lemma_lines_view_add(out@);
        }
        let ghost l2 = lines_view(out@);
        let mut c = cs_block(&self.last_hits_samples, game_time);
        out.append(&mut c);
        proof {
            lemma_lines_view_add(out@);
        }
        let ghost l3 = lines_view(out@);
        let mut d = death_block(self.death_count, self.last_death_time, game_time);
        out.append(&mut d);
        proof {
            lemma_lines_view_add(out@);
            assert(lines_view(out@) =~= spec_performance_lines(*self, game_time as int));
        }
        out
    }
}

proof fn lemma_lines_view_add(v: Seq<String>)
    ensures
        forall|a: Seq<String>, b: Seq<String>|
            v == a + b ==> lines_view(v) == lines_view(a) + lines_view(b),
{
    assert forall|a: Seq<String>, b: Seq<String>| v == a + b implies lines_view(v) == lines_view(
        a,
    ) + lines_view(b) by {
        assert(lines_view(a + b) =~= lines_view(a) + lines_view(b));
    }
}

/// The resource-rate block of the report.
fn gpm_block(g: &Vec<(i32, i32)>) -> (out: Vec<String>)
    requires
        g@.len() <= SERIES_CAP,
    ensures
        lines_view(out@) == spec_gpm_lines(g@),
{
    let mut out: Vec<String> = Vec::new();
    if g.len() >= 2 {
        let cur: i64 = g[g.len() - 1].1 as i64;
        let sum = sum_series(g);
        let avg = div_trunc_i64(sum, g.len() as i64);
        let mut line = "  GPM: ".to_owned();
        push_dec_i64(&mut line, cur);
        line.append(" (Avg: ");
        push_dec_i64(&mut line, avg);
        line.append(")");
        out.push(line);
        if cur >= avg + 100 {
            out.push("    GPM trending up significantly!".to_owned());
        } else if cur >= avg + 20 {
            out.push("    GPM trending up".to_owned());
        } else if cur <= avg - 100 {
            out.push("    GPM trending down significantly".to_owned());
        } else if cur <= avg - 20 {
            out.push("    GPM trending down".to_owned());
        }
    }
    proof {
        assert(lines_view(out@) =~= spec_gpm_lines(g@));
    }
    out
}

/// The experience-rate block of the report.
fn xpm_block(x: &Vec<(i32, i32)>) -> (out: Vec<String>)
    ensures
        lines_view(out@) == spec_xpm_lines(x@),
{
    let mut out: Vec<String> = Vec::new();
    if x.len() >= 2 {
        let cur: i64 = x[x.len() - 1].1 as i64;
        let mut line = "  XPM: ".to_owned();
        push_dec_i64(&mut line, cur);
        out.push(line);
    }
    proof {
        assert(lines_view(out@) =~= spec_xpm_lines(x@));
    }
    out
}

/// The last-hit block of the report.
fn cs_block(lh: &Vec<(i32, i32)>, game_time: i32) -> (out: Vec<String>)
    ensures
        lines_view(out@) == spec_cs_lines(lh@, game_time as int),
{
    let mut out: Vec<String> = Vec::new();
    if lh.len() >= 2 {
        let minutes = div_trunc_i64(game_time as i64, 60);
        if minutes > 0 {
            let cur: i64 = lh[lh.len() - 1].1 as i64;
            let cs10 = div_trunc_i64(cur * 10, minutes);
            let whole = div_trunc_i64(cs10, 10);
            let frac = rem_trunc_i64(cs10, 10);
            let frac_abs: i64 = if frac < 0 {
                -frac
            } else {
                frac
            };
            let mut line = "  CS/min: ".to_owned();
            push_dec_i64(&mut line, whole);
            line.append(".");
            push_dec_i64(&mut line, frac_abs);
            out.push(line);
            if minutes < 10 {
                if cur >= 7 * minutes {
                    out.push("    Excellent early game CS".to_owned());
                } else if cur >= 5 * minutes {
                    out.push("    Good early game CS".to_owned());
                } else if cur < 3 * minutes {
                    out.push("    Early game CS needs improvement".to_owned());
                }
            } else {
                if cur >= 8 * minutes {
                    out.push("    Excellent CS".to_owned());
                } else if cur >= 6 * minutes {
                    out.push("    Good CS".to_owned());
                } else if cur < 4 * minutes {
                    out.push("    CS needs improvement".to_owned());
                }
            }
        }
    }
    proof {
        assert(lines_view(out@) =~= spec_cs_lines(lh@, game_time as int));
    }
    out
}

/// The death block of the report.
fn death_block(death_count: u64, last_death_time: i32, game_time: i32) -> (out: Vec<String>)
    ensures
        lines_view(out@) == spec_death_lines(death_count, last_death_time as int, game_time as int),
{
    let mut out: Vec<String> = Vec::new();
    if death_count > 0 {
        let mut line = "  Deaths: ".to_owned();
        push_dec_u64(&mut line, death_count);
        out.push(line);
        let minutes = div_trunc_i64(game_time as i64, 60);
        let dc5 = if death_count > 0x1999999999999999u64 {
            i64::MAX
        } else {
            5 * (death_count as i64)
        };
        if minutes > 0 && dc5 > minutes {
            out.push("    High death rate, play more cautiously".to_owned());
        }
        let since: i64 = game_time as i64 - last_death_time as i64;
        if since > 300 {
            let mut streak = "    Good survival streak: ".to_owned();
            push_dec_i64(&mut streak, div_trunc_i64(since, 60));
            streak.append(" minutes without dying");
            out.push(streak);
        }
    } else {
        out.push("  Deaths: 0 - Excellent survival!".to_owned());
    }
    proof {
        assert(lines_view(out@) =~= spec_death_lines(
            death_count,
            last_death_time as int,
            game_time as int,
        ));
    }
    out
}

/// Law: a resource-rate series of at least two samples whose latest value
/// lies at or above the rolling mean plus one hundred makes the report
/// include the strongly-rising trend line.
pub proof fn lemma_trend_up_significant(m: HeroPerformanceTracker, now: int)
    requires
        m.gpm_samples@.len() >= 2,
        m.gpm_samples@[m.gpm_samples@.len() - 1].1 as int >= spec_mean(m.gpm_samples@) + 100,
    ensures
        spec_performance_lines(m, now).contains("    GPM trending up significantly!"@),
{
    let lines = spec_performance_lines(m, now);
    assert(lines[2] == "    GPM trending up significantly!"@);
    assert(lines.contains("    GPM trending up significantly!"@)) by {
        assert(0 <= 2 < lines.len());
    }
}

/// Law: a resource-rate series of at least two samples whose latest value
/// lies at or below the rolling mean minus one hundred makes the report
/// include the strongly-falling trend line.
pub proof fn lemma_trend_down_significant(m: HeroPerformanceTracker, now: int)
    requires
        m.gpm_samples@.len() >= 2,
        m.gpm_samples@[m.gpm_samples@.len() - 1].1 as int <= spec_mean(m.gpm_samples@) - 100,
    ensures
        spec_performance_lines(m, now).contains("    GPM trending down significantly"@),
{
    let lines = spec_performance_lines(m, now);
    assert(lines[2] == "    GPM trending down significantly"@);
    assert(lines.contains("    GPM trending down significantly"@)) by {
        assert(0 <= 2 < lines.len());
    }
}

} // verus!
