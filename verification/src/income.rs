//! Reconstruction of annual income series from sparse ledger samples.
//!
//! The document's ledger holds sparse per-year income samples, each a
//! representative-period rate. Aggregation filters the samples of one polity
//! and annualizes each by a twelve-fold scaling. When several samples share
//! a year, each insertion overwrites the previous one: the series keeps only
//! the last-seen sample per year (the preserved last-wins policy), so no two
//! entries ever share a year.
use vstd::prelude::*;

use crate::text::{amount_in_range, AMOUNT_LIMIT};

verus! {

/// One sparse ledger observation: a polity's representative-period income
/// rate in one year, as a fixed-point amount.
pub struct LedgerSample {
    pub tag: String,
    pub year: u16,
    pub value: i64,
}

/// One entry of an annual income series.
#[derive(PartialEq, Eq, Structural, Clone, Copy, Debug)]
pub struct YearTotal {
    pub year: u16,
    pub total: i64,
}

/// The annualized value of a period income rate.
pub open spec fn spec_annualized(v: i64) -> i64 {
    (12 * v) as i64
}

/// Entries strictly increasing by year: sorted, and no year repeated.
pub open spec fn sorted_by_year(e: Seq<YearTotal>) -> bool {
    forall|i: int, j: int| 0 <= i < j < e.len() ==> e[i].year < e[j].year
}

/// The year-keyed mapping an entry sequence stands for.
pub open spec fn entries_map(e: Seq<YearTotal>) -> Map<u16, i64>
    decreases e.len(),
{
    if e.len() == 0 {
        Map::empty()
    } else {
        entries_map(e.drop_last()).insert(e.last().year, e.last().total)
    }
}

/// Inserting-or-overwriting one year in a sorted entry sequence.
pub open spec fn spec_upsert(e: Seq<YearTotal>, y: u16, v: i64) -> Seq<YearTotal>
    decreases e.len(),
{
    if e.len() == 0 {
        seq![YearTotal { year: y, total: v }]
    } else if y > e.last().year {
        e.push(YearTotal { year: y, total: v })
    } else if y == e.last().year {
        e.update(e.len() - 1, YearTotal { year: y, total: v })
    } else {
        spec_upsert(e.drop_last(), y, v).push(e.last())
    }
}

/// The annual income series of `tag`, reduced from `samples` in order under
/// the last-wins policy.
pub open spec fn spec_annual_entries(samples: Seq<LedgerSample>, tag: Seq<char>) -> Seq<YearTotal>
    decreases samples.len(),
{
    if samples.len() == 0 {
        Seq::empty()
    } else {
        let prev = spec_annual_entries(samples.drop_last(), tag);
        let s = samples.last();
        if s.tag@ == tag {
            spec_upsert(prev, s.year, spec_annualized(s.value))
        } else {
            prev
        }
    }
}

/// The same series as a year-keyed mapping, defined directly over the
/// samples: the value of a year is twelve times the last matching sample.
pub open spec fn spec_annual_map(samples: Seq<LedgerSample>, tag: Seq<char>) -> Map<u16, i64>
    decreases samples.len(),
{
    if samples.len() == 0 {
        Map::empty()
    } else {
        let prev = spec_annual_map(samples.drop_last(), tag);
        let s = samples.last();
        if s.tag@ == tag {
            prev.insert(s.year, spec_annualized(s.value))
        } else {
            prev
        }
    }
}

/// Upserting keeps entries sorted and unique, acts on the mapping as a
/// plain insert, and introduces no year but `y`.
proof fn lemma_upsert(e: Seq<YearTotal>, y: u16, v: i64)
    requires
        sorted_by_year(e),
    ensures
        sorted_by_year(spec_upsert(e, y, v)),
        entries_map(spec_upsert(e, y, v)) == entries_map(e).insert(y, v),
        forall|i: int|
            0 <= i < spec_upsert(e, y, v).len() ==> (#[trigger] spec_upsert(e, y, v)[i].year == y
                || exists|j: int| 0 <= j < e.len() && #[trigger] e[j].year == spec_upsert(
                e,
                y,
                v,
            )[i].year),
    decreases e.len(),
{
    let r = spec_upsert(e, y, v);
    if e.len() == 0 {
        assert(r.drop_last() =~= Seq::<YearTotal>::empty());
        assert(r.last() == YearTotal { year: y, total: v });
        assert(entries_map(r.drop_last()) =~= Map::<u16, i64>::empty());
        assert(entries_map(e) =~= Map::<u16, i64>::empty());
        assert(entries_map(r) =~= entries_map(e).insert(y, v));
    } else if y > e.last().year {
        assert(r.drop_last() =~= e);
        assert(r.last() == YearTotal { year: y, total: v });
        assert(entries_map(r) == entries_map(e).insert(y, v));
    } else if y == e.last().year {
        assert(r.drop_last() =~= e.drop_last());
        assert(r.last() == YearTotal { year: y, total: v });
        assert(entries_map(r) == entries_map(e.drop_last()).insert(y, v));
        assert(entries_map(r) =~= entries_map(e).insert(y, v));
    } else {
        let dl = e.drop_last();
        assert(sorted_by_year(dl));
        lemma_upsert(dl, y, v);
        let q = spec_upsert(dl, y, v);
        assert(r == q.push(e.last()));
        // Every year in q is y or comes from dl, and both are below e.last().year,
        // so appending e.last() keeps the sequence strictly increasing.
        assert forall|i: int| 0 <= i < q.len() implies #[trigger] q[i].year < e.last().year by {
            if q[i].year != y {
                let j = choose|j: int| 0 <= j < dl.len() && #[trigger] dl[j].year == q[i].year;
                assert(dl[j] == e[j]);
                assert(e[j].year < e.last().year);
            }
        }
        assert(sorted_by_year(r));
        assert(r.drop_last() =~= q);
        assert(entries_map(r) == entries_map(q).insert(e.last().year, e.last().total));
        assert(entries_map(q) == entries_map(dl).insert(y, v));
        assert(entries_map(e) == entries_map(dl).insert(e.last().year, e.last().total));
        assert(entries_map(r) =~= entries_map(e).insert(y, v));
    }
}

/// The reduced series is sorted with no repeated year, and stands for
/// exactly the year-keyed mapping of the samples.
pub proof fn lemma_annual_entries(samples: Seq<LedgerSample>, tag: Seq<char>)
    ensures
        sorted_by_year(spec_annual_entries(samples, tag)),
        entries_map(spec_annual_entries(samples, tag)) == spec_annual_map(samples, tag),
    decreases samples.len(),
{
    if samples.len() > 0 {
        lemma_annual_entries(samples.drop_last(), tag);
        let s = samples.last();
        if s.tag@ == tag {
            lemma_upsert(
                spec_annual_entries(samples.drop_last(), tag),
                s.year,
                spec_annualized(s.value),
            );
        }
    }
}

/// No two entries of a produced annual income series share a year.
pub proof fn lemma_annual_entries_unique(samples: Seq<LedgerSample>, tag: Seq<char>)
    ensures
        forall|i: int, j: int|
            0 <= i < j < spec_annual_entries(samples, tag).len() ==> #[trigger] spec_annual_entries(
                samples,
                tag,
            )[i].year != #[trigger] spec_annual_entries(samples, tag)[j].year,
{
    lemma_annual_entries(samples, tag);
}

fn upsert(entries: &mut Vec<YearTotal>, y: u16, v: i64)
    ensures
        final(entries)@ == spec_upsert(old(entries)@, y, v),
{
    let ghost e0 = entries@;
    let mut j: usize = entries.len();
    proof {
        assert(e0.take(e0.len() as int) =~= e0);
        assert(e0.skip(e0.len() as int) =~= Seq::<YearTotal>::empty());
        assert(spec_upsert(e0.take(e0.len() as int), y, v) + e0.skip(e0.len() as int)
            =~= spec_upsert(e0, y, v));
    }
    while j > 0 && entries[j - 1].year > y
        invariant
            0 <= j <= e0.len(),
            entries@ == e0,
            forall|k: int| j <= k < e0.len() ==> e0[k].year > y,
            spec_upsert(e0, y, v) == spec_upsert(e0.take(j as int), y, v) + e0.skip(j as int),
        decreases j,
    {
        proof {
            let t = e0.take(j as int);
            assert(t.last() == e0[j as int - 1]);
            assert(t.drop_last() =~= e0.take(j as int - 1));
            assert(spec_upsert(t, y, v) == spec_upsert(e0.take(j as int - 1), y, v).push(
                e0[j as int - 1],
            ));
            assert(spec_upsert(e0.take(j as int - 1), y, v).push(e0[j as int - 1]) + e0.skip(
                j as int,
            ) =~= spec_upsert(e0.take(j as int - 1), y, v) + e0.skip(j as int - 1));
        }
        j = j - 1;
    }
    let yt = YearTotal { year: y, total: v };
    if j == 0 {
        entries.insert(0, yt);
        proof {
            assert(e0.take(0) =~= Seq::<YearTotal>::empty());
            assert(spec_upsert(e0.take(0), y, v) =~= seq![yt]);
            assert(e0.skip(0) =~= e0);
            assert(entries@ =~= spec_upsert(e0, y, v));
        }
    } else if entries[j - 1].year == y {
        entries.set(j - 1, yt);
        proof {
            let t = e0.take(j as int);
            assert(t.last() == e0[j as int - 1]);
            assert(spec_upsert(t, y, v) == t.update(j as int - 1, yt));
            assert(t.update(j as int - 1, yt) + e0.skip(j as int) =~= e0.update(j as int - 1, yt));
            assert(entries@ =~= spec_upsert(e0, y, v));
        }
    } else {
        entries.insert(j, yt);
        proof {
            let t = e0.take(j as int);
            assert(t.last() == e0[j as int - 1]);
            assert(spec_upsert(t, y, v) == t.push(yt));
            assert(t.push(yt) + e0.skip(j as int) =~= e0.insert(j as int, yt));
            assert(entries@ =~= spec_upsert(e0, y, v));
        }
    }
}

/// Whether every sample's value is a representable amount.
pub open spec fn samples_in_range(samples: Seq<LedgerSample>) -> bool {
    forall|i: int| 0 <= i < samples.len() ==> amount_in_range(#[trigger] samples[i].value as int)
}

/// Reduces the ledger samples of `tag` to its annual income series: one
/// entry per sampled year, holding twelve times the last sample of that
/// year, sorted by year.
pub fn aggregate_annual(samples: &Vec<LedgerSample>, tag: &String) -> (r: Vec<YearTotal>)
    requires
        samples_in_range(samples@),
    ensures
        r@ == spec_annual_entries(samples@, tag@),
        sorted_by_year(r@),
        entries_map(r@) == spec_annual_map(samples@, tag@),
{
    let mut r: Vec<YearTotal> = Vec::new();
    let mut i: usize = 0;
    while i < samples.len()
        invariant
            0 <= i <= samples@.len(),
            samples_in_range(samples@),
            r@ == spec_annual_entries(samples@.take(i as int), tag@),
        decreases samples@.len() - i,
    {
        proof {
            let t = samples@.take(i as int + 1);
            assert(t.drop_last() =~= samples@.take(i as int));
            assert(t.last() == samples@[i as int]);
        }
        if samples[i].tag == *tag {
            assert(amount_in_range(samples@[i as int].value as int));
            let v12: i64 = 12 * samples[i].value;
            upsert(&mut r, samples[i].year, v12);
        }
        i = i + 1;
    }
    assert(samples@.take(samples@.len() as int) =~= samples@);
    proof {
        lemma_annual_entries(samples@, tag@);
    }
    r
}

} // verus!
