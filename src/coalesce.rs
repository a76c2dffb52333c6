//! Joining back-to-back suitable periods into ranges.

use vstd::prelude::*;
use crate::forecast::Period;
use crate::suitability::pointed_to;
use crate::wind::{parse_wind_speed, wind_speed_of};

verus! {

/// What a range (or a single period) says: its bounds and the highest
/// temperature, chance of precipitation and wind speed within it.
pub ghost struct Span {
    pub start: Seq<char>,
    pub end: Seq<char>,
    pub temp: int,
    pub precipitation: int,
    pub wind: int,
}

/// A stretch of one or more back-to-back periods, with the highest
/// temperature, chance of precipitation and wind speed among them.
#[derive(Debug, PartialEq, Eq)]
pub struct TimePeriod {
    pub start_time: String,
    pub end_time: String,
    pub temp: i64,
    pub probability_of_precipitation: i64,
    pub max_wind_speed: u8,
}

impl View for TimePeriod {
    type V = Span;

    open spec fn view(&self) -> Span {
        Span {
            start: self.start_time@,
            end: self.end_time@,
            temp: self.temp as int,
            precipitation: self.probability_of_precipitation as int,
            wind: self.max_wind_speed as int,
        }
    }
}

pub open spec fn larger(a: int, b: int) -> int {
    if a >= b {
        a
    } else {
        b
    }
}

/// A single period seen as a range of its own.
pub open spec fn span_of(p: Period) -> Span {
    Span {
        start: p.start_time@,
        end: p.end_time@,
        temp: p.temperature as int,
        precipitation: p.probability_of_precipitation.value as int,
        wind: wind_speed_of(p.wind_speed@),
    }
}

pub open spec fn spans_of(ps: Seq<Period>) -> Seq<Span> {
    ps.map_values(|p: Period| span_of(p))
}

pub open spec fn views_of(ts: Seq<TimePeriod>) -> Seq<Span> {
    ts.map_values(|t: TimePeriod| t@)
}

/// `b` starts exactly where `a` ends, as the timestamps are written.
pub open spec fn adjacent(a: Span, b: Span) -> bool {
    a.end == b.start
}

/// `a` extended by `b`, which follows it: from `a`'s start to `b`'s end, with
/// the larger of each reading.
pub open spec fn join(a: Span, b: Span) -> Span {
    Span {
        start: a.start,
        end: b.end,
        temp: larger(a.temp, b.temp),
        precipitation: larger(a.precipitation, b.precipitation),
        wind: larger(a.wind, b.wind),
    }
}

/// One left-to-right pass over `s`: each span joins the last range when it
/// starts where that range ends, and opens a new range otherwise.
pub open spec fn coalesced(s: Seq<Span>) -> Seq<Span>
    decreases s.len(),
{
    if s.len() == 0 {
        s
    } else {
        let done = coalesced(s.drop_last());
        let cur = s.last();
        if done.len() > 0 && adjacent(done.last(), cur) {
            done.update(done.len() - 1, join(done.last(), cur))
        } else {
            done.push(cur)
        }
    }
}

/// No range of `s` starts where the one before it ends.
pub open spec fn separated(s: Seq<Span>) -> bool {
    forall|i: int| 0 <= i < s.len() - 1 ==> !adjacent(#[trigger] s[i], s[i + 1])
}

/// Coalescing leaves no two neighbouring ranges that could still be joined.
pub proof fn lemma_coalesced_separated(s: Seq<Span>)
    ensures
        separated(coalesced(s)),
    decreases s.len(),
{
    if s.len() > 0 {
        lemma_coalesced_separated(s.drop_last());
        let done = coalesced(s.drop_last());
        let out = coalesced(s);
        assert forall|i: int| 0 <= i < out.len() - 1 implies !adjacent(#[trigger] out[i], out[i + 1]) by {
            assert(out[i] == done[i]);
            if i + 1 < done.len() {
                assert(out[i + 1].start == done[i + 1].start);
            }
        }
    }
}

/// Coalescing is idempotent: the ranges that coalescing gives, each taken as
/// a single period, coalesce to themselves.
pub proof fn lemma_coalesce_idempotent(s: Seq<Span>)
    ensures
        coalesced(coalesced(s)) == coalesced(s),
{
    lemma_coalesced_separated(s);
    lemma_separated_unchanged(coalesced(s));
}

/// A sequence in which no two neighbours are adjacent coalesces to itself.
pub proof fn lemma_separated_unchanged(s: Seq<Span>)
    requires
        separated(s),
    ensures
        coalesced(s) == s,
    decreases s.len(),
{
    if s.len() > 0 {
        let front = s.drop_last();
        assert(separated(front)) by {
            assert forall|i: int| 0 <= i < front.len() - 1 implies !adjacent(#[trigger] front[i], front[i + 1]) by {
                assert(front[i] == s[i] && front[i + 1] == s[i + 1]);
            }
        }
        lemma_separated_unchanged(front);
        if front.len() > 0 {
            assert(!adjacent(s[s.len() - 2], s[s.len() - 1]));
        }
        assert(front.push(s.last()) =~= s);
    }
}

/// Joining three back-to-back periods does not depend on the grouping: one
/// at a time from the left gives the same range as joining the last two
/// first, and a coalescing pass over the three yields that single range.
pub proof fn lemma_join_associative(a: Span, b: Span, c: Span)
    requires
        adjacent(a, b),
        adjacent(b, c),
    ensures
        join(join(a, b), c) == join(a, join(b, c)),
        coalesced(seq![a, b, c]) == seq![join(a, join(b, c))],
{
    let s = seq![a, b, c];
    assert(s.drop_last() =~= seq![a, b]);
    assert(seq![a, b].drop_last() =~= seq![a]);
    assert(seq![a].drop_last() =~= Seq::<Span>::empty());
    assert(coalesced(Seq::<Span>::empty()) =~= Seq::<Span>::empty());
    assert(Seq::<Span>::empty().push(a) =~= seq![a]);
    assert(coalesced(seq![a]) =~= seq![a]);
    assert(seq![a].update(0, join(a, b)) =~= seq![join(a, b)]);
    assert(coalesced(seq![a, b]) =~= seq![join(a, b)]);
    assert(seq![join(a, b)].update(0, join(join(a, b), c)) =~= seq![join(join(a, b), c)]);
    assert(coalesced(s) =~= seq![join(join(a, b), c)]);
}

fn range_of(p: &Period) -> (r: TimePeriod)
    ensures
        r@ == span_of(*p),
{
    TimePeriod {
        start_time: p.start_time.clone(),
        end_time: p.end_time.clone(),
        temp: p.temperature,
        probability_of_precipitation: p.probability_of_precipitation.value,
        max_wind_speed: parse_wind_speed(p.wind_speed.as_str()),
    }
}

/// Joins the periods that follow each other without a gap (one's end
/// timestamp equal to the next one's start) into ranges, in order.
pub fn coalesce(periods: Vec<&Period>) -> (r: Vec<TimePeriod>)
    ensures
        views_of(r@) == coalesced(spans_of(pointed_to(periods@))),
{
    let ghost all = spans_of(pointed_to(periods@));
    let mut tp: Vec<TimePeriod> = Vec::new();
    let mut i: usize = 0;
    while i < periods.len()
        invariant
            i <= periods@.len(),
            all == spans_of(pointed_to(periods@)),
            views_of(tp@) == coalesced(all.subrange(0, i as int)),
        decreases periods@.len() - i,
    {
        let cur: &Period = periods[i];
        let ghost done = views_of(tp@);
        assert(all.subrange(0, i + 1).drop_last() =~= all.subrange(0, i as int));
        assert(all.subrange(0, i + 1).last() == span_of(*cur));
        let n = tp.len();
        if n > 0 && tp[n - 1].end_time == cur.start_time {
            let prev = &tp[n - 1];
            let wind = parse_wind_speed(cur.wind_speed.as_str());
            let merged = TimePeriod {
                start_time: prev.start_time.clone(),
                end_time: cur.end_time.clone(),
                temp: if prev.temp >= cur.temperature { prev.temp } else { cur.temperature },
                probability_of_precipitation: if prev.probability_of_precipitation
                    >= cur.probability_of_precipitation.value {
                    prev.probability_of_precipitation
                } else {
                    cur.probability_of_precipitation.value
                },
                max_wind_speed: if prev.max_wind_speed >= wind { prev.max_wind_speed } else { wind },
            };
            assert(merged@ == join(done.last(), span_of(*cur)));
            tp.set(n - 1, merged);
            assert(views_of(tp@) =~= done.update(done.len() - 1, join(done.last(), span_of(*cur))));
        } else {
            tp.push(range_of(cur));
            assert(views_of(tp@) =~= done.push(span_of(*cur)));
        }
        i = i + 1;
    }
    assert(all.subrange(0, periods@.len() as int) =~= all);
    tp
}

} // verus!
