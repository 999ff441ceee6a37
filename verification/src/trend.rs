use vstd::prelude::*;

use crate::clock::{
    month_index, month_label, month_label_of, month_start, month_start_of, months_earlier,
    months_earlier_of, utc_year_month, year_month_at,
};
use crate::stats::{calculate_nps, nps_of, lemma_nps_rounds_to_nearest};

verus! {

/// One group of answers read from the store: the answers of one segment in
/// one calendar month, with how many of them promote and detract.
#[derive(Debug, Clone, PartialEq, Eq)]
pub struct TrendRow {
    pub year: i32,
    pub month: i32,
    pub segment: String,
    pub total: u64,
    pub promoters: u64,
    pub detractors: u64,
}

/// A calendar month of the trend, with its display label.
#[derive(Debug, Clone, PartialEq, Eq)]
pub struct TrendMonth {
    pub year: i32,
    pub month: i32,
    pub label: String,
}

/// The trend figures of one month: the overall score, the score of each
/// segment, and the number of answers.
#[derive(Debug, Clone, PartialEq, Eq)]
pub struct TrendItem {
    pub label: String,
    pub overall: i32,
    pub by_segment: Vec<(String, i32)>,
    pub total: u64,
}

/// The six months that the trend covers, oldest first, and the first
/// instant of the oldest one.
#[derive(Debug, Clone, PartialEq, Eq)]
pub struct TrendWindow {
    pub start_ms: i64,
    pub months: Vec<TrendMonth>,
}

/// Two rows describe the same segment in the same month.
pub open spec fn same_slot(a: TrendRow, b: TrendRow) -> bool {
    a.year == b.year && a.month == b.month && a.segment@ == b.segment@
}

/// No later row describes the same segment in the same month: a later row
/// replaces an earlier one.
pub open spec fn is_latest(rows: Seq<TrendRow>, i: int) -> bool {
    forall|j: int| i < j < rows.len() ==> !same_slot(#[trigger] rows[j], rows[i])
}

/// Row `i` is the row that counts for its segment in the given month.
pub open spec fn counted(rows: Seq<TrendRow>, i: int, year: int, month: int) -> bool {
    rows[i].year == year && rows[i].month == month && is_latest(rows, i)
}

/// Answers, promoters and detractors of a month, summed over the rows that
/// count among the first `n`.
pub open spec fn month_sums(rows: Seq<TrendRow>, year: int, month: int, n: int) -> (int, int, int)
    decreases n,
{
    if n <= 0 {
        (0, 0, 0)
    } else {
        let s = month_sums(rows, year, month, n - 1);
        if counted(rows, n - 1, year, month) {
            let r = rows[n - 1];
            (s.0 + r.total, s.1 + r.promoters, s.2 + r.detractors)
        } else {
            s
        }
    }
}

/// The score of each segment of a month, in the order of the rows that
/// count among the first `n`.
pub open spec fn month_segments(rows: Seq<TrendRow>, year: int, month: int, n: int) -> Seq<(Seq<char>, i32)>
    decreases n,
{
    if n <= 0 {
        seq![]
    } else {
        let s = month_segments(rows, year, month, n - 1);
        if counted(rows, n - 1, year, month) {
            let r = rows[n - 1];
            s.push((r.segment@, nps_of(r.promoters as int, r.detractors as int, r.total as int) as i32))
        } else {
            s
        }
    }
}

/// The sums of a month fit in 64 bits.
pub open spec fn sums_fit(rows: Seq<TrendRow>, year: int, month: int) -> bool {
    let s = month_sums(rows, year, month, rows.len() as int);
    s.0 <= u64::MAX && s.1 <= u64::MAX && s.2 <= u64::MAX
}

pub open spec fn segment_views(v: Seq<(String, i32)>) -> Seq<(Seq<char>, i32)> {
    v.map_values(|e: (String, i32)| (e.0@, e.1))
}

/// `item` holds the trend figures of `month` computed from `rows`.
pub open spec fn item_matches(item: TrendItem, month: TrendMonth, rows: Seq<TrendRow>) -> bool {
    let s = month_sums(rows, month.year as int, month.month as int, rows.len() as int);
    &&& item.label@ == month.label@
    &&& item.total == s.0
    &&& item.overall == nps_of(s.1, s.2, s.0)
    &&& segment_views(item.by_segment@) == month_segments(
        rows,
        month.year as int,
        month.month as int,
        rows.len() as int,
    )
}

proof fn lemma_month_sums_monotonic(rows: Seq<TrendRow>, year: int, month: int, i: int, n: int)
    requires
        0 <= i <= n,
    ensures
        month_sums(rows, year, month, i).0 <= month_sums(rows, year, month, n).0,
        month_sums(rows, year, month, i).1 <= month_sums(rows, year, month, n).1,
        month_sums(rows, year, month, i).2 <= month_sums(rows, year, month, n).2,
    decreases n - i,
{
    if i < n {
        lemma_month_sums_monotonic(rows, year, month, i, n - 1);
    }
}

/// Whether no later row describes the same segment in the same month.
fn is_latest_row(rows: &Vec<TrendRow>, i: usize) -> (r: bool)
    requires
        i < rows.len(),
    ensures
        r == is_latest(rows@, i as int),
{
    let mut j: usize = i + 1;
    while j < rows.len()
        invariant
            i < j <= rows.len(),
            forall|k: int| i < k < j ==> !same_slot(#[trigger] rows@[k], rows@[i as int]),
        decreases rows.len() - j,
    {
        if rows[j].year == rows[i].year && rows[j].month == rows[i].month && rows[j].segment
            == rows[i].segment {
            assert(same_slot(rows@[j as int], rows@[i as int]));
            return false;
        }
        j += 1;
    }
    true
}

/// The trend figures of one month; `None` when a sum does not fit in 64 bits.
pub fn month_item(month: &TrendMonth, rows: &Vec<TrendRow>) -> (r: Option<TrendItem>)
    ensures
        r is Some <==> sums_fit(rows@, month.year as int, month.month as int),
        r matches Some(item) ==> item_matches(item, *month, rows@),
        r matches Some(item) ==> forall|p: int|
            0 <= p < item.by_segment@.len() ==> scored_from_row(
                rows@,
                month.year as int,
                month.month as int,
                rows@.len() as int,
                #[trigger] segment_views(item.by_segment@)[p],
            ),
{
    proof {
        lemma_month_segment_scores(rows@, month.year as int, month.month as int, rows@.len() as int);
    }
    let ghost y = month.year as int;
    let ghost m = month.month as int;
    let mut total: u64 = 0;
    let mut promoters: u64 = 0;
    let mut detractors: u64 = 0;
    let mut by_segment: Vec<(String, i32)> = Vec::new();
    let mut i: usize = 0;
    assert(segment_views(by_segment@) =~= month_segments(rows@, y, m, 0));
    while i < rows.len()
        invariant
            i <= rows.len(),
            y == month.year as int,
            m == month.month as int,
            (total as int, promoters as int, detractors as int) == month_sums(rows@, y, m, i as int),
            segment_views(by_segment@) == month_segments(rows@, y, m, i as int),
        decreases rows.len() - i,
    {
        let row = &rows[i];
        if row.year == month.year && row.month == month.month && is_latest_row(rows, i) {
            proof {
                lemma_month_sums_monotonic(rows@, y, m, i + 1, rows.len() as int);
            }
            let t = match total.checked_add(row.total) {
                Some(t) => t,
                None => return None,
            };
            let p = match promoters.checked_add(row.promoters) {
                Some(p) => p,
                None => return None,
            };
            let d = match detractors.checked_add(row.detractors) {
                Some(d) => d,
                None => return None,
            };
            total = t;
            promoters = p;
            detractors = d;
            let score = calculate_nps(row.promoters, row.detractors, row.total);
            let ghost before = by_segment@;
            by_segment.push((row.segment.clone(), score));
            assert(segment_views(by_segment@) =~= segment_views(before).push(
                (row.segment@, score),
            ));
        }
        i += 1;
    }
    let overall = calculate_nps(promoters, detractors, total);
    Some(TrendItem { label: month.label.clone(), overall, by_segment, total })
}

/// The trend figures of each month, in the order of `months`; `None` when a
/// month's sums do not fit in 64 bits.
pub fn trend_from_rows(months: &Vec<TrendMonth>, rows: &Vec<TrendRow>) -> (r: Option<Vec<TrendItem>>)
    ensures
        r is Some <==> (forall|k: int|
            0 <= k < months.len() ==> sums_fit(
                rows@,
                #[trigger] months@[k].year as int,
                months@[k].month as int,
            )),
        r matches Some(items) ==> {
            &&& items.len() == months.len()
            &&& forall|k: int|
                0 <= k < months.len() ==> item_matches(#[trigger] items@[k], months@[k], rows@)
        },
{
    let mut items: Vec<TrendItem> = Vec::new();
    let mut k: usize = 0;
    while k < months.len()
        invariant
            k <= months.len(),
            items.len() == k,
            forall|j: int|
                0 <= j < k ==> sums_fit(rows@, #[trigger] months@[j].year as int, months@[j].month as int),
            forall|j: int| 0 <= j < k ==> item_matches(#[trigger] items@[j], months@[j], rows@),
        decreases months.len() - k,
    {
        match month_item(&months[k], rows) {
            Some(item) => items.push(item),
            None => {
                assert(!sums_fit(rows@, months@[k as int].year as int, months@[k as int].month as int));
                return None;
            },
        }
        k += 1;
    }
    Some(items)
}

/// The month index of a timestamp that the clock can read.
pub open spec fn stamp_index(ms: i64) -> int {
    let ym = utc_year_month(ms)->0;
    month_index(ym.0 as int, ym.1 as int)
}

/// The timestamp `5 - k` months before `now_ms`: the `k`-th month of the window.
pub open spec fn window_stamp(now_ms: i64, k: int) -> Option<i64> {
    months_earlier_of(now_ms, (5 - k) as u32)
}

/// The clock gives a month, a year and a label for the `k`-th month of the window.
pub open spec fn window_month_defined(now_ms: i64, k: int) -> bool {
    &&& window_stamp(now_ms, k) matches Some(t)
    &&& utc_year_month(t) is Some
    &&& month_label_of(t) is Some
}

/// The clock gives every month of the window and the start of the oldest.
pub open spec fn window_defined(now_ms: i64) -> bool {
    &&& forall|k: int| 0 <= k < 6 ==> #[trigger] window_month_defined(now_ms, k)
    &&& window_stamp(now_ms, 0) matches Some(t)
    &&& utc_year_month(t) matches Some(ym)
    &&& month_start_of(ym.0, ym.1) is Some
}

/// `m` is the `k`-th month of the window: the year, month and label of the
/// timestamp `5 - k` months before `now_ms`.
pub open spec fn window_month_matches(now_ms: i64, k: int, m: TrendMonth) -> bool {
    let t = window_stamp(now_ms, k)->0;
    let ym = utc_year_month(t)->0;
    &&& m.year == ym.0
    &&& m.month == ym.1
    &&& month_label_of(t) == Some(m.label@)
}

/// The six months of the trend ending with the month of `now_ms`, and the
/// first instant of the oldest of them; `None` when the clock cannot give
/// one of them.
pub fn trend_window(now_ms: i64) -> (r: Option<TrendWindow>)
    ensures
        r is Some <==> window_defined(now_ms),
        months_earlier_of(now_ms, 5) is Some ==> r is Some,
        r matches Some(w) ==> {
            &&& w.months.len() == 6
            &&& forall|k: int| 0 <= k < 6 ==> window_month_matches(now_ms, k, #[trigger] w.months@[k])
            &&& month_start_of(w.months@[0].year, w.months@[0].month as u32) == Some(w.start_ms)
            &&& utc_year_month(w.start_ms) == Some((w.months@[0].year, w.months@[0].month as u32))
            &&& forall|k: int| 0 <= k < 6 ==> 1 <= #[trigger] w.months@[k].month <= 12
            &&& forall|k: int|
                0 <= k < 5 ==> month_index(w.months@[k + 1].year as int, w.months@[k + 1].month as int)
                    == month_index(#[trigger] w.months@[k].year as int, w.months@[k].month as int) + 1
            &&& utc_year_month(now_ms) matches Some(now) && month_index(
                w.months@[5].year as int,
                w.months@[5].month as int,
            ) == month_index(now.0 as int, now.1 as int)
        },
{
    let mut months: Vec<TrendMonth> = Vec::new();
    let mut k: u32 = 0;
    while k < 6
        invariant
            k <= 6,
            months.len() == k,
            k > 0 ==> utc_year_month(now_ms) is Some,
            k > 0 ==> forall|m: u32| m <= 5 ==> #[trigger] months_earlier_of(now_ms, m) is Some,
            k > 0 ==> month_start_of(months@[0].year, months@[0].month as u32) is Some,
            forall|j: int| 0 <= j < k ==> #[trigger] window_month_defined(now_ms, j),
            forall|j: int| 0 <= j < k ==> window_month_matches(now_ms, j, #[trigger] months@[j]),
            forall|j: int| 0 <= j < k ==> 1 <= #[trigger] months@[j].month <= 12,
            forall|j: int|
                0 <= j < k ==> month_index(#[trigger] months@[j].year as int, months@[j].month as int)
                    == stamp_index(now_ms) - (5 - j),
        decreases 6 - k,
    {
        let n: u32 = 5 - k;
        let t = match months_earlier(now_ms, n) {
            Some(t) => t,
            None => {
                assert(!window_month_defined(now_ms, k as int));
                assert(k > 0 ==> months_earlier_of(now_ms, n) is Some);
                return None;
            },
        };
        let ym = match year_month_at(t) {
            Some(ym) => ym,
            None => {
                assert(!window_month_defined(now_ms, k as int));
                return None;
            },
        };
        let label = match month_label(t) {
            Some(label) => label,
            None => {
                assert(!window_month_defined(now_ms, k as int));
                return None;
            },
        };
        months.push(TrendMonth { year: ym.0, month: ym.1 as i32, label });
        assert(window_month_defined(now_ms, k as int));
        k += 1;
    }
    let start_ms = match month_start(months[0].year, months[0].month as u32) {
        Some(start_ms) => start_ms,
        None => return None,
    };
    assert(window_month_defined(now_ms, 0));
    Some(TrendWindow { start_ms, months })
}

/// Without answers every month of the trend shows no answers, a score of 0
/// and no segments.
pub proof fn lemma_trend_without_rows(months: Seq<TrendMonth>, items: Seq<TrendItem>)
    requires
        items.len() == months.len(),
        forall|k: int| 0 <= k < months.len() ==> item_matches(#[trigger] items[k], months[k], Seq::empty()),
    ensures
        forall|k: int| 0 <= k < items.len() ==> {
            &&& (#[trigger] items[k]).total == 0
            &&& items[k].overall == 0
            &&& items[k].by_segment@.len() == 0
        },
{
    assert forall|k: int| 0 <= k < items.len() implies {
        &&& (#[trigger] items[k]).total == 0
        &&& items[k].overall == 0
        &&& items[k].by_segment@.len() == 0
    } by {
        assert(item_matches(items[k], months[k], Seq::empty()));
        assert(segment_views(items[k].by_segment@).len() == items[k].by_segment@.len());
    }
}

/// Some row among the first `n` counts for the month and names segment `key`.
pub open spec fn has_source_row(rows: Seq<TrendRow>, year: int, month: int, n: int, key: Seq<char>) -> bool {
    exists|i: int| 0 <= i < n && #[trigger] counted(rows, i, year, month) && rows[i].segment@ == key
}

/// Every segment listed for a month comes from a row that counts for it.
proof fn lemma_month_segments_sources(rows: Seq<TrendRow>, year: int, month: int, n: int)
    requires
        0 <= n <= rows.len(),
    ensures
        forall|p: int|
            0 <= p < month_segments(rows, year, month, n).len() ==> has_source_row(
                rows,
                year,
                month,
                n,
                (#[trigger] month_segments(rows, year, month, n)[p]).0,
            ),
    decreases n,
{
    if n > 0 {
        lemma_month_segments_sources(rows, year, month, n - 1);
        let prev = month_segments(rows, year, month, n - 1);
        let cur = month_segments(rows, year, month, n);
        assert forall|p: int| 0 <= p < cur.len() implies has_source_row(
            rows,
            year,
            month,
            n,
            (#[trigger] cur[p]).0,
        ) by {
            if p < prev.len() {
                assert(cur[p] == prev[p]);
                assert(has_source_row(rows, year, month, n - 1, prev[p].0));
                let i = choose|i: int|
                    0 <= i < n - 1 && #[trigger] counted(rows, i, year, month) && rows[i].segment@
                        == prev[p].0;
                assert(counted(rows, i, year, month));
            } else {
                assert(counted(rows, n - 1, year, month));
            }
        }
    }
}

/// `entry` is the score of a row that counts for the month among the first
/// `n`: it names that row's segment, and its score is the Net Promoter Score
/// of that row's own counts, the whole number nearest to the row's
/// percentage difference.
pub open spec fn scored_from_row(rows: Seq<TrendRow>, year: int, month: int, n: int, entry: (Seq<char>, i32)) -> bool {
    exists|i: int|
        0 <= i < n && #[trigger] counted(rows, i, year, month) && {
            let r = rows[i];
            &&& entry.0 == r.segment@
            &&& entry.1 == nps_of(r.promoters as int, r.detractors as int, r.total as int) as i32
            &&& (0 < r.total && r.promoters <= r.total && r.detractors <= r.total) ==> {
                &&& -100 <= entry.1 <= 100
                &&& 200 * (r.promoters - r.detractors) - r.total <= 2 * r.total * entry.1
                &&& 2 * r.total * entry.1 <= 200 * (r.promoters - r.detractors) + r.total
            }
        }
}

/// Each segment score of a month is the score of that segment's own row: the
/// Net Promoter Score of its own promoters, detractors and total.
pub proof fn lemma_month_segment_scores(rows: Seq<TrendRow>, year: int, month: int, n: int)
    requires
        0 <= n <= rows.len(),
    ensures
        forall|p: int|
            0 <= p < month_segments(rows, year, month, n).len() ==> scored_from_row(
                rows,
                year,
                month,
                n,
                #[trigger] month_segments(rows, year, month, n)[p],
            ),
    decreases n,
{
    if n > 0 {
        lemma_month_segment_scores(rows, year, month, n - 1);
        let prev = month_segments(rows, year, month, n - 1);
        let cur = month_segments(rows, year, month, n);
        assert forall|p: int| 0 <= p < cur.len() implies scored_from_row(
            rows,
            year,
            month,
            n,
            #[trigger] cur[p],
        ) by {
            if p < prev.len() {
                assert(cur[p] == prev[p]);
                assert(scored_from_row(rows, year, month, n - 1, prev[p]));
                let i = choose|i: int|
                    0 <= i < n - 1 && #[trigger] counted(rows, i, year, month) && {
                        let r = rows[i];
                        &&& prev[p].0 == r.segment@
                        &&& prev[p].1 == nps_of(r.promoters as int, r.detractors as int, r.total as int) as i32
                        &&& (0 < r.total && r.promoters <= r.total && r.detractors <= r.total) ==> {
                            &&& -100 <= prev[p].1 <= 100
                            &&& 200 * (r.promoters - r.detractors) - r.total <= 2 * r.total * prev[p].1
                            &&& 2 * r.total * prev[p].1 <= 200 * (r.promoters - r.detractors) + r.total
                        }
                    };
                assert(counted(rows, i, year, month));
            } else {
                let r = rows[n - 1];
                assert(counted(rows, n - 1, year, month));
                if 0 < r.total && r.promoters <= r.total && r.detractors <= r.total {
                    lemma_nps_rounds_to_nearest(r.promoters as int, r.detractors as int, r.total as int);
                    crate::stats::lemma_nps_bounds(r.promoters as int, r.detractors as int, r.total as int);
                }
            }
        }
    }
}

/// Each segment appears at most once among the segments of a month.
pub proof fn lemma_month_segments_distinct(rows: Seq<TrendRow>, year: int, month: int, n: int)
    requires
        0 <= n <= rows.len(),
    ensures
        forall|a: int, b: int|
            0 <= a < b < month_segments(rows, year, month, n).len() ==> (#[trigger] month_segments(
                rows,
                year,
                month,
                n,
            )[a]).0 != (#[trigger] month_segments(rows, year, month, n)[b]).0,
    decreases n,
{
    if n > 0 {
        lemma_month_segments_distinct(rows, year, month, n - 1);
        lemma_month_segments_sources(rows, year, month, n - 1);
        let prev = month_segments(rows, year, month, n - 1);
        let cur = month_segments(rows, year, month, n);
        if counted(rows, n - 1, year, month) {
            assert forall|a: int, b: int| 0 <= a < b < cur.len() implies (#[trigger] cur[a]).0 != (
            #[trigger] cur[b]).0 by {
                if b == prev.len() {
                    assert(cur[a] == prev[a]);
                    assert(has_source_row(rows, year, month, n - 1, prev[a].0));
                    let i = choose|i: int|
                        0 <= i < n - 1 && #[trigger] counted(rows, i, year, month) && rows[i].segment@
                            == prev[a].0;
                    if cur[a].0 == cur[b].0 {
                        assert(same_slot(rows[n - 1], rows[i]));
                    }
                } else {
                    assert(cur[a] == prev[a]);
                    assert(cur[b] == prev[b]);
                }
            }
        }
    }
}

/// A row appended for another month changes neither the sums nor the
/// segments of a month, at any prefix of the original rows.
proof fn lemma_push_other_month(rows: Seq<TrendRow>, extra: TrendRow, year: int, month: int, n: int)
    requires
        0 <= n <= rows.len(),
        !(extra.year == year && extra.month == month),
    ensures
        month_sums(rows.push(extra), year, month, n) == month_sums(rows, year, month, n),
        month_segments(rows.push(extra), year, month, n) == month_segments(rows, year, month, n),
    decreases n,
{
    if n > 0 {
        lemma_push_other_month(rows, extra, year, month, n - 1);
        let more = rows.push(extra);
        let i = n - 1;
        assert(more[i] == rows[i]);
        if rows[i].year == year && rows[i].month == month {
            if is_latest(rows, i) {
                assert forall|j: int| i < j < more.len() implies !same_slot(#[trigger] more[j], more[i]) by {
                    if j < rows.len() {
                        assert(more[j] == rows[j]);
                    }
                }
            }
            if is_latest(more, i) {
                assert forall|j: int| i < j < rows.len() implies !same_slot(#[trigger] rows[j], rows[i]) by {
                    assert(more[j] == rows[j]);
                }
            }
        }
        assert(counted(more, i, year, month) == counted(rows, i, year, month));
    }
}

/// A row whose month is none of the window's months changes no trend item:
/// the same items match each month with or without it, and its sums fit
/// alike.
pub proof fn lemma_trend_ignores_other_months(months: Seq<TrendMonth>, rows: Seq<TrendRow>, extra: TrendRow)
    requires
        forall|k: int|
            0 <= k < months.len() ==> !(extra.year == (#[trigger] months[k]).year && extra.month
                == months[k].month),
    ensures
        forall|k: int, item: TrendItem|
            0 <= k < months.len() ==> (#[trigger] item_matches(item, months[k], rows.push(extra))
                <==> item_matches(item, months[k], rows)),
        forall|k: int|
            0 <= k < months.len() ==> (sums_fit(rows.push(extra), #[trigger] months[k].year as int, months[k].month as int)
                <==> sums_fit(rows, months[k].year as int, months[k].month as int)),
{
    assert forall|k: int| 0 <= k < months.len() implies {
        let y = (#[trigger] months[k]).year as int;
        let m = months[k].month as int;
        &&& month_sums(rows.push(extra), y, m, rows.len() + 1int) == month_sums(rows, y, m, rows.len() as int)
        &&& month_segments(rows.push(extra), y, m, rows.len() + 1int) == month_segments(rows, y, m, rows.len() as int)
    } by {
        let y = months[k].year as int;
        let m = months[k].month as int;
        lemma_push_other_month(rows, extra, y, m, rows.len() as int);
        let more = rows.push(extra);
        assert(more[rows.len() as int] == extra);
        assert(!counted(more, rows.len() as int, y, m));
    }
}

/// A row from before the window (its month comes before the oldest month,
/// and the window's months are consecutive, as `trend_window` gives them)
/// changes no trend item.
pub proof fn lemma_trend_ignores_older_rows(months: Seq<TrendMonth>, rows: Seq<TrendRow>, extra: TrendRow)
    requires
        months.len() > 0,
        forall|k: int|
            0 <= k < months.len() - 1 ==> month_index(months[k + 1].year as int, months[k + 1].month as int)
                == month_index(#[trigger] months[k].year as int, months[k].month as int) + 1,
        month_index(extra.year as int, extra.month as int) < month_index(months[0].year as int, months[0].month as int),
    ensures
        forall|k: int, item: TrendItem|
            0 <= k < months.len() ==> (#[trigger] item_matches(item, months[k], rows.push(extra))
                <==> item_matches(item, months[k], rows)),
{
    assert forall|k: int| 0 <= k < months.len() implies month_index(
        (#[trigger] months[k]).year as int,
        months[k].month as int,
    ) >= month_index(months[0].year as int, months[0].month as int) by {
        lemma_consecutive_months_grow(months, k);
    }
    lemma_trend_ignores_other_months(months, rows, extra);
}

proof fn lemma_consecutive_months_grow(months: Seq<TrendMonth>, k: int)
    requires
        0 <= k < months.len(),
        forall|j: int|
            0 <= j < months.len() - 1 ==> month_index(months[j + 1].year as int, months[j + 1].month as int)
                == month_index(#[trigger] months[j].year as int, months[j].month as int) + 1,
    ensures
        month_index(months[k].year as int, months[k].month as int)
            == month_index(months[0].year as int, months[0].month as int) + k,
    decreases k,
{
    if k > 0 {
        lemma_consecutive_months_grow(months, k - 1);
        assert(month_index(months[k].year as int, months[k].month as int)
            == month_index(months[k - 1].year as int, months[k - 1].month as int) + 1);
    }
}

} // verus!
