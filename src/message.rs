//! The whole pipeline: forecast periods in, message text out.

use vstd::prelude::*;
use crate::coalesce::{coalesce, coalesced, spans_of, Span};
use crate::display::{range_display, text_of, BANNER};
use crate::forecast::Period;
use crate::suitability::{select_suitable, suitable_only};

verus! {

/// `lines` with a newline between each two of them.
pub open spec fn joined(lines: Seq<Seq<char>>) -> Seq<char>
    decreases lines.len(),
{
    if lines.len() == 0 {
        Seq::empty()
    } else if lines.len() == 1 {
        lines[0]
    } else {
        joined(lines.drop_last()) + "\n"@ + lines.last()
    }
}

/// The banner line, then the given lines.
pub open spec fn message_of(lines: Seq<Seq<char>>) -> Seq<char> {
    BANNER@ + "\n"@ + joined(lines)
}

pub open spec fn texts_of(lines: Seq<String>) -> Seq<Seq<char>> {
    lines.map_values(|l: String| l@)
}

/// The lines of the given ranges, or `None` where any of them cannot be shown.
pub open spec fn range_lines(spans: Seq<Span>) -> Option<Seq<Seq<char>>>
    decreases spans.len(),
{
    if spans.len() == 0 {
        Some(Seq::empty())
    } else {
        match (range_lines(spans.drop_last()), range_display(spans.last())) {
            (Some(front), Some(line)) => Some(front.push(line)),
            _ => None,
        }
    }
}

/// The message for a forecast: the banner, then one line per range of
/// back-to-back suitable periods; `None` where a range's timestamp cannot be
/// read.
pub open spec fn forecast_message(periods: Seq<Period>) -> Option<Seq<char>> {
    match range_lines(coalesced(spans_of(suitable_only(periods)))) {
        Some(lines) => Some(message_of(lines)),
        None => None,
    }
}

/// The banner line followed by `lines`, one per line.
pub fn compose_message(lines: &Vec<String>) -> (r: String)
    ensures
        r@ == message_of(texts_of(lines@)),
{
    let mut s = String::from_str(BANNER);
    s.append("\n");
    let mut i: usize = 0;
    while i < lines.len()
        invariant
            i <= lines@.len(),
            s@ == BANNER@ + "\n"@ + joined(texts_of(lines@).subrange(0, i as int)),
        decreases lines@.len() - i,
    {
        let ghost all = texts_of(lines@);
        assert(all.subrange(0, i + 1).drop_last() =~= all.subrange(0, i as int));
        if i > 0 {
            s.append("\n");
        } else {
            assert(all.subrange(0, 0) =~= Seq::<Seq<char>>::empty());
        }
        s.append(lines[i].as_str());
        assert(s@ =~= BANNER@ + "\n"@ + joined(all.subrange(0, i + 1)));
        i = i + 1;
    }
    assert(texts_of(lines@).subrange(0, lines@.len() as int) =~= texts_of(lines@));
    s
}

/// The message that announces the good riding times in `periods`: the
/// banner, then one line per range of back-to-back suitable periods. `None`
/// where the timestamp of such a range is not RFC 3339.
pub fn bike_times_message(periods: &Vec<Period>) -> (r: Option<String>)
    ensures
        text_of(r) == forecast_message(periods@),
{
    let ranges = coalesce(select_suitable(periods));
    let ghost spans = coalesced(spans_of(suitable_only(periods@)));
    let mut lines: Vec<String> = Vec::new();
    let mut i: usize = 0;
    while i < ranges.len()
        invariant
            i <= ranges@.len(),
            spans == coalesced(spans_of(suitable_only(periods@))),
            spans.len() == ranges@.len(),
            forall|j: int| 0 <= j < ranges@.len() ==> #[trigger] ranges@[j]@ == spans[j],
            range_lines(spans.subrange(0, i as int)) == Some(texts_of(lines@)),
        decreases ranges@.len() - i,
    {
        assert(spans.subrange(0, i + 1).drop_last() =~= spans.subrange(0, i as int));
        assert(spans.subrange(0, i + 1).last() == ranges@[i as int]@);
        match ranges[i].pretty() {
            Some(line) => {
                lines.push(line);
                assert(texts_of(lines@) =~= texts_of(lines@).drop_last().push(lines@.last()@));
                assert(texts_of(lines@).drop_last() =~= texts_of(lines@.drop_last()));
            },
            None => {
                proof {
                    let prefix = spans.subrange(0, i + 1);
                    assert(range_display(prefix.last()) == None::<Seq<char>>);
                    assert(range_lines(prefix) == None::<Seq<Seq<char>>>);
                    lemma_range_lines_fail(spans, i as int + 1);
                }
                return None;
            },
        }
        i = i + 1;
    }
    assert(spans.subrange(0, ranges@.len() as int) =~= spans);
    Some(compose_message(&lines))
}

/// Once a prefix of the ranges cannot be shown, no longer prefix can.
proof fn lemma_range_lines_fail(spans: Seq<Span>, k: int)
    requires
        0 <= k <= spans.len(),
        range_lines(spans.subrange(0, k)) == None::<Seq<Seq<char>>>,
    ensures
        range_lines(spans) == None::<Seq<Seq<char>>>,
    decreases spans.len() - k,
{
    if k < spans.len() {
        assert(spans.subrange(0, k + 1).drop_last() =~= spans.subrange(0, k));
        lemma_range_lines_fail(spans, k + 1);
    } else {
        assert(spans.subrange(0, k) =~= spans);
    }
}

} // verus!
