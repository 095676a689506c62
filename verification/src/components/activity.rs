//! The contribution heatmap: fitting the fetched contributions to the grid,
//! and labelling months and weekdays.
use vstd::prelude::*;
use vstd::utf8::encode_utf8;

use crate::config::ActivityConfig;
use crate::localization::{translate, translation, Catalog, Locale};
use crate::text::{chars_equal, chars_of, push_str, string_of, views};

verus! {

/// One day of contributions as reported by the contribution API.
#[derive(Debug, PartialEq, Eq)]
pub struct GithubContribution {
    pub date: String,
    pub count: u32,
    pub level: u8,
}

impl Clone for GithubContribution {
    fn clone(&self) -> (r: Self)
        ensures
            r == *self,
    {
        GithubContribution { date: self.date.clone(), count: self.count, level: self.level }
    }
}

/// An empty cell: no date, no contributions.
pub open spec fn is_placeholder(c: GithubContribution) -> bool {
    c.date@.len() == 0 && c.count == 0 && c.level == 0
}

/// `count` empty cells.
pub fn placeholder_cells(count: usize) -> (r: Vec<GithubContribution>)
    ensures
        r@.len() == count,
        forall|k: int| 0 <= k < count ==> is_placeholder(#[trigger] r@[k]),
{
    let mut r: Vec<GithubContribution> = Vec::new();
    let mut i: usize = 0;
    while i < count
        invariant
            i <= count,
            r@.len() == i,
            forall|k: int| 0 <= k < i ==> is_placeholder(#[trigger] r@[k]),
        decreases count - i,
    {
        r.push(GithubContribution { date: String::new(), count: 0, level: 0 });
        i = i + 1;
    }
    r
}

/// Fits the contributions to exactly `expected` cells: the most recent
/// `expected` are kept, and missing leading cells are filled with empty ones.
pub fn normalize_cells(contributions: Vec<GithubContribution>, expected: usize) -> (r: Vec<
    GithubContribution,
>)
    ensures
        r@.len() == expected,
        contributions@.len() >= expected ==> r@ == contributions@.subrange(
            contributions@.len() - expected,
            contributions@.len() as int,
        ),
        contributions@.len() < expected ==> {
            &&& r@.subrange(expected - contributions@.len(), expected as int) == contributions@
            &&& forall|k: int|
                0 <= k < expected - contributions@.len() ==> is_placeholder(#[trigger] r@[k])
        },
{
    let mut contributions = contributions;
    let n = contributions.len();
    if n > expected {
        let kept = contributions.split_off(n - expected);
        kept
    } else if n < expected {
        let mut padding = placeholder_cells(expected - n);
        let ghost given = contributions@;
        padding.append(&mut contributions);
        assert(padding@.subrange((expected - n) as int, expected as int) =~= given);
        padding
    } else {
        assert(contributions@.subrange(0, n as int) =~= contributions@);
        contributions
    }
}

/// The colour a cell is drawn with: its level, capped at the last
/// configured colour (the first when there are none).
pub open spec fn heatmap_level_of(level: u8, colors: nat) -> nat {
    let last: nat = if colors == 0 {
        0
    } else {
        (colors - 1) as nat
    };
    if (level as nat) <= last {
        level as nat
    } else {
        last
    }
}

/// The index of the colour a contribution cell is drawn with.
pub fn heatmap_level(level: u8, colors: usize) -> (r: usize)
    ensures
        r == heatmap_level_of(level, colors as nat),
{
    let last: usize = if colors == 0 {
        0
    } else {
        colors - 1
    };
    let l: usize = level as usize;
    if l <= last {
        l
    } else {
        last
    }
}

/// How long a cell waits before it appears: its position times the
/// stagger, where both the position and the product stop at `u32::MAX`.
pub open spec fn heatmap_delay_of(index: nat, stagger: u32) -> nat {
    let i: nat = if index <= u32::MAX {
        index
    } else {
        u32::MAX as nat
    };
    if i * (stagger as nat) <= u32::MAX {
        i * (stagger as nat)
    } else {
        u32::MAX as nat
    }
}

/// The entrance delay, in milliseconds, of the cell at `index`.
pub fn heatmap_delay(index: usize, stagger: u32) -> (r: u32)
    ensures
        r == heatmap_delay_of(index as nat, stagger),
{
    let i: u32 = if index <= 0xffff_ffffusize {
        index as u32
    } else {
        u32::MAX
    };
    assert((i as int) * (stagger as int) <= 0xffff_ffff * 0xffff_ffff) by (nonlinear_arith)
        requires
            i <= 0xffff_ffff,
            stagger <= 0xffff_ffff,
    ;
    let product: u64 = (i as u64) * (stagger as u64);
    if product <= 0xffff_ffffu64 {
        product as u32
    } else {
        u32::MAX
    }
}

/// The English abbreviation of a month given by its two ASCII digits, or
/// empty when they do not name a month.
pub open spec fn month_from_digits(a: u8, b: u8) -> Seq<char> {
    if a == 48 {
        if b == 49 {
            "Jan"@
        } else if b == 50 {
            "Feb"@
        } else if b == 51 {
            "Mar"@
        } else if b == 52 {
            "Apr"@
        } else if b == 53 {
            "May"@
        } else if b == 54 {
            "Jun"@
        } else if b == 55 {
            "Jul"@
        } else if b == 56 {
            "Aug"@
        } else if b == 57 {
            "Sep"@
        } else {
            seq![]
        }
    } else if a == 49 {
        if b == 48 {
            "Oct"@
        } else if b == 49 {
            "Nov"@
        } else if b == 50 {
            "Dec"@
        } else {
            seq![]
        }
    } else {
        seq![]
    }
}

/// The month abbreviation for a two-digit month number, empty otherwise.
pub open spec fn month_name_of(month: Seq<char>) -> Seq<char> {
    if month.len() == 2 && month[0] as u32 <= 127 && month[1] as u32 <= 127 {
        month_from_digits(month[0] as u8, month[1] as u8)
    } else {
        seq![]
    }
}

fn month_from_digits_exec(a: u8, b: u8) -> (r: &'static str)
    ensures
        r@ == month_from_digits(a, b),
{
    proof {
        reveal_strlit("");
    }
    if a == 48 {
        if b == 49 {
            "Jan"
        } else if b == 50 {
            "Feb"
        } else if b == 51 {
            "Mar"
        } else if b == 52 {
            "Apr"
        } else if b == 53 {
            "May"
        } else if b == 54 {
            "Jun"
        } else if b == 55 {
            "Jul"
        } else if b == 56 {
            "Aug"
        } else if b == 57 {
            "Sep"
        } else {
            ""
        }
    } else if a == 49 {
        if b == 48 {
            "Oct"
        } else if b == 49 {
            "Nov"
        } else if b == 50 {
            "Dec"
        } else {
            ""
        }
    } else {
        ""
    }
}

/// The English month abbreviation for a two-digit month number (`"01"`
/// to `"12"`), empty for anything else.
pub fn month_name(month: &str) -> (r: &'static str)
    ensures
        r@ == month_name_of(month@),
{
    proof {
        reveal_strlit("");
    }
    let m = chars_of(month);
    if m.len() == 2 && (m[0] as u32) <= 127 && (m[1] as u32) <= 127 {
        month_from_digits_exec(m[0] as u8, m[1] as u8)
    } else {
        ""
    }
}

/// The UTF-8 bytes of a cell's date.
pub open spec fn date_bytes(c: GithubContribution) -> Seq<u8> {
    encode_utf8(c.date@)
}

/// Whether a cell's date falls on the first of a month (day digits `01`).
pub open spec fn is_first_of_month(c: GithubContribution) -> bool {
    let b = date_bytes(c);
    b.len() >= 10 && b[8] == 48 && b[9] == 49
}

/// The month abbreviation of a cell's `YYYY-MM-DD` date, empty when the
/// month digits do not name a month.
pub open spec fn cell_month(c: GithubContribution) -> Seq<char> {
    let b = date_bytes(c);
    if b.len() >= 7 {
        month_from_digits(b[5], b[6])
    } else {
        seq![]
    }
}

/// The first cell of a week at or after `from` that falls on the first of a
/// month, or `-1`.
pub open spec fn first_of_month_from(week: Seq<GithubContribution>, from: int) -> int
    decreases week.len() - from,
{
    if from < 0 || from >= week.len() {
        -1
    } else if is_first_of_month(week[from]) {
        from
    } else {
        first_of_month_from(week, from + 1)
    }
}

/// The month label of a week before thinning: the month of its first
/// first-of-month cell, or for the first week the month of its first cell.
pub open spec fn raw_week_label(week: Seq<GithubContribution>, index: int) -> Seq<char> {
    let f = first_of_month_from(week, 0);
    if f >= 0 {
        cell_month(week[f])
    } else if index == 0 && week.len() > 0 {
        cell_month(week[0])
    } else {
        seq![]
    }
}

/// Clears, from left to right, any label followed by another label less
/// than three weeks later.
pub open spec fn thin_labels(labels: Seq<Seq<char>>, i: int, prev: Option<int>) -> Seq<Seq<char>>
    decreases labels.len() - i,
{
    if i < 0 || i >= labels.len() {
        labels
    } else if labels[i].len() == 0 {
        thin_labels(labels, i + 1, prev)
    } else {
        let cleared = match prev {
            Some(p) => if 0 <= p < labels.len() && i - p < 3 {
                labels.update(p, seq![])
            } else {
                labels
            },
            None => labels,
        };
        thin_labels(cleared, i + 1, Some(i))
    }
}

/// Whether any cell of the grid has a date.
pub open spec fn any_dated(weeks: Seq<Vec<GithubContribution>>) -> bool {
    exists|w: int, k: int|
        0 <= w < weeks.len() && 0 <= k < weeks[w]@.len() && #[trigger] weeks[w]@[k].date@.len() > 0
}

/// The week positions that the fallback labels take: label `index` goes to
/// week `index * (weeks - 1) / max(labels - 1, 1)`.
pub open spec fn fallback_position(index: int, week_count: int, label_count: int) -> int {
    let span = if week_count > 0 { week_count - 1 } else { 0 };
    let denominator = if label_count > 1 { label_count - 1 } else { 1 };
    index * span / denominator
}

/// The fallback labels after placing the first `n` configured labels; a
/// later label replaces an earlier one at the same week.
pub open spec fn fallback_labels_upto(week_count: nat, fallback: Seq<Seq<char>>, n: int) -> Seq<
    Seq<char>,
>
    decreases n,
{
    if n <= 0 {
        Seq::new(week_count, |i: int| Seq::<char>::empty())
    } else {
        fallback_labels_upto(week_count, fallback, n - 1).update(
            fallback_position(n - 1, week_count as int, fallback.len() as int),
            fallback[n - 1],
        )
    }
}

/// The configured month labels spread evenly over the weeks.
pub open spec fn fallback_labels(week_count: nat, fallback: Seq<Seq<char>>) -> Seq<Seq<char>> {
    fallback_labels_upto(week_count, fallback, fallback.len() as int)
}

/// The month labels of the grid: from the cell dates when any cell has a
/// date, otherwise the configured labels spread over the weeks.
pub open spec fn month_labels_of(weeks: Seq<Vec<GithubContribution>>, fallback: Seq<Seq<char>>) -> Seq<
    Seq<char>,
> {
    if any_dated(weeks) {
        thin_labels(Seq::new(weeks.len(), |i: int| raw_week_label(weeks[i]@, i)), 0, None)
    } else {
        fallback_labels(weeks.len(), fallback)
    }
}

/// Spreads the configured month labels evenly over `week_count` weeks;
/// weeks without a label get an empty one.
pub fn fallback_month_labels(week_count: usize, fallback: &[String]) -> (r: Vec<String>)
    requires
        week_count > 0 || fallback@.len() == 0,
        (fallback@.len() as int) * (week_count as int) <= usize::MAX,
    ensures
        views(r@) == fallback_labels(week_count as nat, views(fallback@)),
{
    let ghost fb = views(fallback@);
    let mut labels: Vec<String> = Vec::new();
    let mut i: usize = 0;
    while i < week_count
        invariant
            i <= week_count,
            views(labels@) == Seq::new(i as nat, |k: int| Seq::<char>::empty()),
        decreases week_count - i,
    {
        let ghost before = views(labels@);
        labels.push(String::new());
        assert(views(labels@) =~= before.push(Seq::<char>::empty()));
        assert(views(labels@) =~= Seq::new((i + 1) as nat, |k: int| Seq::<char>::empty()));
        i = i + 1;
    }
    let span: usize = if week_count > 0 { week_count - 1 } else { 0 };
    let denominator: usize = if fallback.len() > 1 { fallback.len() - 1 } else { 1 };
    let mut index: usize = 0;
    while index < fallback.len()
        invariant
            index <= fallback.len(),
            fb == views(fallback@),
            span == (if week_count > 0 { week_count - 1 } else { 0 }),
            denominator == (if fallback@.len() > 1 { fallback@.len() - 1 } else { 1 }),
            week_count > 0 || fallback@.len() == 0,
            (fallback@.len() as int) * (week_count as int) <= usize::MAX,
            labels@.len() == week_count,
            views(labels@) == fallback_labels_upto(week_count as nat, fb, index as int),
        decreases fallback.len() - index,
    {
        proof {
            lemma_scaled_index(index as int, span as int, denominator as int, week_count as int, fallback@.len() as int);
        }
        let position = index * span / denominator;
        assert(position as int == fallback_position(
            index as int,
            week_count as int,
            fallback@.len() as int,
        ));
        let ghost before = views(labels@);
        labels.set(position, fallback[index].clone());
        assert(views(labels@) =~= before.update(position as int, fb[index as int]));
        index = index + 1;
    }
    assert(fb.len() == fallback@.len());
    labels
}

proof fn lemma_scaled_index(i: int, s: int, d: int, w: int, n: int)
    requires
        0 <= i < n,
        i <= d,
        1 <= d,
        0 <= s < w,
        n * w <= usize::MAX,
    ensures
        0 <= i * s <= usize::MAX,
        0 <= i * s / d <= s,
{
    vstd::arithmetic::mul::lemma_mul_inequality(i, d, s);
    vstd::arithmetic::mul::lemma_mul_nonnegative(i, s);
    vstd::arithmetic::mul::lemma_mul_inequality(i, n, s);
    vstd::arithmetic::mul::lemma_mul_inequality(s, w, n);
    assert(n * s == s * n) by (nonlinear_arith);
    assert(w * n == n * w) by (nonlinear_arith);
    vstd::arithmetic::div_mod::lemma_div_is_ordered(i * s, d * s, d);
    vstd::arithmetic::div_mod::lemma_div_by_multiple(s, d);
    assert(d * s == s * d) by (nonlinear_arith);
    vstd::arithmetic::div_mod::lemma_div_pos_is_pos(i * s, d);
}

fn week_has_date(week: &Vec<GithubContribution>) -> (r: bool)
    ensures
        r == exists|k: int| 0 <= k < week@.len() && #[trigger] week@[k].date@.len() > 0,
{
    let mut k: usize = 0;
    while k < week.len()
        invariant
            k <= week.len(),
            forall|q: int| 0 <= q < k ==> #[trigger] week@[q].date@.len() == 0,
        decreases week.len() - k,
    {
        if !week[k].date.as_str().is_empty() {
            return true;
        }
        k = k + 1;
    }
    false
}

/// Whether the first cell of a week at or after `from` falls on the first of
/// a month.
fn first_of_month_exec(week: &Vec<GithubContribution>) -> (r: Option<usize>)
    ensures
        r matches Some(k) ==> k as int == first_of_month_from(week@, 0) && k < week@.len(),
        r is None ==> first_of_month_from(week@, 0) == -1,
{
    let mut k: usize = 0;
    while k < week.len()
        invariant
            k <= week.len(),
            first_of_month_from(week@, 0) == first_of_month_from(week@, k as int),
        decreases week.len() - k,
    {
        let b = week[k].date.as_str().as_bytes();
        if b.len() >= 10 && b[8] == 48 && b[9] == 49 {
            return Some(k);
        }
        k = k + 1;
    }
    None
}

fn cell_month_exec(c: &GithubContribution) -> (r: &'static str)
    ensures
        r@ == cell_month(*c),
{
    proof {
        reveal_strlit("");
    }
    let b = c.date.as_str().as_bytes();
    if b.len() >= 7 {
        month_from_digits_exec(b[5], b[6])
    } else {
        ""
    }
}

/// The grid columns: consecutive runs of `days` cells, the last one shorter
/// when the cells do not fill it (what `slice::chunks` yields).
pub open spec fn week_columns_of(cells: Seq<GithubContribution>, days: nat) -> Seq<
    Seq<GithubContribution>,
>
    decreases cells.len(),
{
    if days == 0 || cells.len() == 0 {
        seq![]
    } else if cells.len() <= days {
        seq![cells]
    } else {
        seq![cells.take(days as int)] + week_columns_of(cells.skip(days as int), days)
    }
}

/// Splitting cells into week columns loses and reorders nothing: the
/// columns joined back give the cells, every column holds between one and
/// `days` cells, and every column but the last holds exactly `days`.
pub proof fn law_week_columns_partition_cells(cells: Seq<GithubContribution>, days: nat)
    requires
        days > 0,
    ensures
        week_columns_of(cells, days).flatten() == cells,
        forall|w: int|
            0 <= w < week_columns_of(cells, days).len() ==> 0 < (#[trigger] week_columns_of(
                cells,
                days,
            )[w]).len() <= days,
        forall|w: int|
            0 <= w < week_columns_of(cells, days).len() - 1 ==> (#[trigger] week_columns_of(
                cells,
                days,
            )[w]).len() == days,
    decreases cells.len(),
{
    let cols = week_columns_of(cells, days);
    if cells.len() == 0 {
    } else if cells.len() <= days {
        assert(cols.drop_first() =~= Seq::<Seq<GithubContribution>>::empty());
        assert(cols.drop_first().flatten() =~= Seq::<GithubContribution>::empty());
        assert(cols.flatten() =~= cells);
    } else {
        let rest = cells.skip(days as int);
        law_week_columns_partition_cells(rest, days);
        let tail = week_columns_of(rest, days);
        assert(cols.drop_first() =~= tail);
        assert(cells =~= cells.take(days as int) + rest);
        assert forall|w: int| 0 <= w < cols.len() implies 0 < (#[trigger] cols[w]).len()
            <= days by {
            if w > 0 {
                assert(cols[w] == tail[w - 1]);
            }
        }
        assert forall|w: int| 0 <= w < cols.len() - 1 implies (#[trigger] cols[w]).len()
            == days by {
            if w > 0 {
                assert(cols[w] == tail[w - 1]);
            }
        }
    }
}

/// Copies `cells[start..end]`.
fn copy_cells(cells: &Vec<GithubContribution>, start: usize, end: usize) -> (r: Vec<
    GithubContribution,
>)
    requires
        start <= end <= cells@.len(),
    ensures
        r@ == cells@.subrange(start as int, end as int),
{
    let mut r: Vec<GithubContribution> = Vec::new();
    let mut k: usize = start;
    while k < end
        invariant
            start <= k <= end <= cells@.len(),
            r@ == cells@.subrange(start as int, k as int),
        decreases end - k,
    {
        r.push(cells[k].clone());
        k = k + 1;
        assert(r@ =~= cells@.subrange(start as int, k as int));
    }
    r
}

/// Splits the grid's cells into week columns of `days` cells each.
pub fn week_columns(cells: &Vec<GithubContribution>, days: usize) -> (r: Vec<
    Vec<GithubContribution>,
>)
    requires
        days > 0,
    ensures
        r@.len() == week_columns_of(cells@, days as nat).len(),
        forall|w: int|
            0 <= w < r@.len() ==> (#[trigger] r@[w])@ == week_columns_of(cells@, days as nat)[w],
{
    let n = cells.len();
    let mut r: Vec<Vec<GithubContribution>> = Vec::new();
    let mut start: usize = 0;
    assert(cells@.skip(0) =~= cells@);
    while start < n
        invariant
            0 < days,
            start <= n == cells@.len(),
            r@.len() + week_columns_of(cells@.skip(start as int), days as nat).len()
                == week_columns_of(cells@, days as nat).len(),
            forall|w: int|
                0 <= w < r@.len() ==> (#[trigger] r@[w])@ == week_columns_of(
                    cells@,
                    days as nat,
                )[w],
            forall|w: int|
                0 <= w < week_columns_of(cells@.skip(start as int), days as nat).len()
                    ==> #[trigger] week_columns_of(cells@.skip(start as int), days as nat)[w]
                    == week_columns_of(cells@, days as nat)[r@.len() + w],
        decreases n - start,
    {
        let ghost rest = cells@.skip(start as int);
        let end: usize = if n - start > days {
            start + days
        } else {
            n
        };
        let column = copy_cells(cells, start, end);
        proof {
            let cols = week_columns_of(rest, days as nat);
            if rest.len() <= days {
                assert(cols == seq![rest]);
                assert(column@ =~= rest);
                assert(cells@.skip(end as int) =~= Seq::<GithubContribution>::empty());
                assert(week_columns_of(cells@.skip(end as int), days as nat).len() == 0);
            } else {
                assert(cols == seq![rest.take(days as int)] + week_columns_of(
                    rest.skip(days as int),
                    days as nat,
                ));
                assert(column@ =~= rest.take(days as int));
                assert(rest.skip(days as int) =~= cells@.skip(end as int));
            }
            assert(cols[0] == column@);
        }
        let ghost old_len = r@.len();
        r.push(column);
        start = end;
        proof {
            let cols = week_columns_of(rest, days as nat);
            let next = week_columns_of(cells@.skip(start as int), days as nat);
            assert(cols.len() == next.len() + 1);
            assert forall|w: int| 0 <= w < next.len() implies #[trigger] next[w]
                == week_columns_of(cells@, days as nat)[r@.len() + w] by {
                assert(next[w] == cols[w + 1]);
            }
            assert(r@[old_len as int]@ == week_columns_of(cells@, days as nat)[old_len as int]) by {
                assert(cols[0] == week_columns_of(cells@, days as nat)[old_len as int]);
            }
        }
    }
    assert(cells@.skip(n as int) =~= Seq::<GithubContribution>::empty());
    r
}

/// The month labels above the heatmap: derived from the cell dates when any
/// cell has a date (a week is labelled with the month that begins in it, the
/// first week with its own month, and a label is dropped when the next one
/// follows within three weeks); otherwise the configured labels spread over
/// the weeks.
pub fn month_labels(weeks: &[Vec<GithubContribution>], fallback: &[String]) -> (r: Vec<String>)
    requires
        weeks@.len() > 0 || fallback@.len() == 0,
        (fallback@.len() as int) * (weeks@.len() as int) <= usize::MAX,
    ensures
        views(r@) == month_labels_of(weeks@, views(fallback@)),
{
    let mut dated = false;
    let mut w: usize = 0;
    while w < weeks.len()
        invariant
            w <= weeks.len(),
            dated == exists|v: int, k: int|
                0 <= v < w && 0 <= k < weeks@[v]@.len() && #[trigger] weeks@[v]@[k].date@.len() > 0,
        decreases weeks.len() - w,
    {
        if week_has_date(&weeks[w]) {
            dated = true;
        }
        w = w + 1;
    }
    if !dated {
        assert(!any_dated(weeks@));
        return fallback_month_labels(weeks.len(), fallback);
    }
    let ghost raw = Seq::new(weeks@.len(), |i: int| raw_week_label(weeks@[i]@, i));
    let mut labels: Vec<Vec<char>> = Vec::new();
    let mut i: usize = 0;
    while i < weeks.len()
        invariant
            i <= weeks.len(),
            raw == Seq::new(weeks@.len(), |i: int| raw_week_label(weeks@[i]@, i)),
            crate::config::validate::list_views(labels@) == raw.take(i as int),
        decreases weeks.len() - i,
    {
        proof {
            reveal_strlit("");
        }
        let week = &weeks[i];
        let label = match first_of_month_exec(week) {
            Some(k) => cell_month_exec(&week[k]),
            None => if i == 0 && week.len() > 0 {
                cell_month_exec(&week[0])
            } else {
                ""
            },
        };
        assert(week@ == weeks@[i as int]@);
        assert(label@ == raw_week_label(weeks@[i as int]@, i as int));
        assert(raw[i as int] == raw_week_label(weeks@[i as int]@, i as int));
        let ghost before = crate::config::validate::list_views(labels@);
        labels.push(chars_of(label));
        assert(crate::config::validate::list_views(labels@) =~= before.push(raw[i as int]));
        assert(raw.take(i + 1) =~= raw.take(i as int).push(raw[i as int]));
        i = i + 1;
    }
    assert(raw.take(weeks.len() as int) =~= raw);
    let mut previous: Option<usize> = None;
    let mut index: usize = 0;
    while index < labels.len()
        invariant
            index <= labels.len(),
            labels@.len() == raw.len(),
            previous matches Some(p) ==> p < index,
            thin_labels(raw, 0, None) == thin_labels(
                crate::config::validate::list_views(labels@),
                index as int,
                match previous {
                    Some(p) => Some(p as int),
                    None => None,
                },
            ),
        decreases labels.len() - index,
    {
        if labels[index].len() == 0 {
            index = index + 1;
            continue;
        }
        let ghost before = crate::config::validate::list_views(labels@);
        match previous {
            Some(p) => {
                if index - p < 3 {
                    labels.set(p, Vec::new());
                    assert(crate::config::validate::list_views(labels@) =~= before.update(
                        p as int,
                        seq![],
                    ));
                }
            },
            None => {},
        }
        previous = Some(index);
        index = index + 1;
    }
    let mut out: Vec<String> = Vec::new();
    let mut j: usize = 0;
    while j < labels.len()
        invariant
            j <= labels.len(),
            views(out@) == crate::config::validate::list_views(labels@).take(j as int),
        decreases labels.len() - j,
    {
        let ghost before = views(out@);
        out.push(string_of(labels[j].as_slice()));
        assert(views(out@) =~= before.push(labels@[j as int]@));
        assert(crate::config::validate::list_views(labels@).take(j + 1)
            =~= crate::config::validate::list_views(labels@).take(j as int).push(
            labels@[j as int]@,
        ));
        j = j + 1;
    }
    assert(crate::config::validate::list_views(labels@).take(labels.len() as int)
        =~= crate::config::validate::list_views(labels@));
    out
}

/// The two-digit month number of an English month abbreviation.
pub open spec fn month_number(label: Seq<char>) -> Option<Seq<char>> {
    if label == "Jan"@ {
        Some("01"@)
    } else if label == "Feb"@ {
        Some("02"@)
    } else if label == "Mar"@ {
        Some("03"@)
    } else if label == "Apr"@ {
        Some("04"@)
    } else if label == "May"@ {
        Some("05"@)
    } else if label == "Jun"@ {
        Some("06"@)
    } else if label == "Jul"@ {
        Some("07"@)
    } else if label == "Aug"@ {
        Some("08"@)
    } else if label == "Sep"@ {
        Some("09"@)
    } else if label == "Oct"@ {
        Some("10"@)
    } else if label == "Nov"@ {
        Some("11"@)
    } else if label == "Dec"@ {
        Some("12"@)
    } else {
        None
    }
}

fn month_number_exec(label: &[char]) -> (r: Option<&'static str>)
    ensures
        r matches Some(m) ==> month_number(label@) == Some(m@),
        r is None ==> month_number(label@) is None,
{
    if chars_equal(label, chars_of("Jan").as_slice()) {
        Some("01")
    } else if chars_equal(label, chars_of("Feb").as_slice()) {
        Some("02")
    } else if chars_equal(label, chars_of("Mar").as_slice()) {
        Some("03")
    } else if chars_equal(label, chars_of("Apr").as_slice()) {
        Some("04")
    } else if chars_equal(label, chars_of("May").as_slice()) {
        Some("05")
    } else if chars_equal(label, chars_of("Jun").as_slice()) {
        Some("06")
    } else if chars_equal(label, chars_of("Jul").as_slice()) {
        Some("07")
    } else if chars_equal(label, chars_of("Aug").as_slice()) {
        Some("08")
    } else if chars_equal(label, chars_of("Sep").as_slice()) {
        Some("09")
    } else if chars_equal(label, chars_of("Oct").as_slice()) {
        Some("10")
    } else if chars_equal(label, chars_of("Nov").as_slice()) {
        Some("11")
    } else if chars_equal(label, chars_of("Dec").as_slice()) {
        Some("12")
    } else {
        None
    }
}

/// A month label in `locale`: an English abbreviation is translated under
/// `activity.month.MM`; anything else is kept as it is.
pub open spec fn localized_month_of(catalog: Catalog, locale: Locale, label: Seq<char>) -> Seq<
    char,
> {
    match month_number(label) {
        Some(m) => translation(catalog, locale, "activity.month."@ + m, label),
        None => label,
    }
}

/// Translates an English month abbreviation.
pub fn localized_month(catalog: &Catalog, locale: Locale, label: &str) -> (r: String)
    ensures
        r@ == localized_month_of(*catalog, locale, label@),
{
    let l = chars_of(label);
    match month_number_exec(l.as_slice()) {
        Some(m) => {
            let mut key: Vec<char> = Vec::new();
            push_str(&mut key, "activity.month.");
            push_str(&mut key, m);
            let key_string = string_of(key.as_slice());
            assert(key_string@ =~= "activity.month."@ + m@);
            translate(catalog, locale, key_string.as_str(), label)
        },
        None => label.to_owned(),
    }
}

/// The configured day label at `i`, or empty.
pub open spec fn day_label_at(labels: Seq<String>, i: int) -> Seq<char> {
    if 0 <= i < labels.len() {
        labels[i]@
    } else {
        seq![]
    }
}

/// The label of a heatmap row: Monday, Wednesday and Friday (rows 1, 3, 5)
/// show the configured labels in order, translated; other rows none.
pub open spec fn day_label_of(config: ActivityConfig, catalog: Catalog, locale: Locale, day: int) -> Seq<
    char,
> {
    if day == 1 {
        translation(catalog, locale, "activity.day.mon"@, day_label_at(config.day_labels@, 0))
    } else if day == 3 {
        translation(catalog, locale, "activity.day.wed"@, day_label_at(config.day_labels@, 1))
    } else if day == 5 {
        translation(catalog, locale, "activity.day.fri"@, day_label_at(config.day_labels@, 2))
    } else {
        seq![]
    }
}

fn configured_day(config: &ActivityConfig, i: usize) -> (r: &str)
    ensures
        r@ == day_label_at(config.day_labels@, i as int),
{
    proof {
        reveal_strlit("");
    }
    if i < config.day_labels.len() {
        config.day_labels[i].as_str()
    } else {
        ""
    }
}

/// The label shown beside heatmap row `day`.
pub fn day_label(config: &ActivityConfig, catalog: &Catalog, locale: Locale, day: usize) -> (r: String)
    ensures
        r@ == day_label_of(*config, *catalog, locale, day as int),
{
    if day == 1 {
        translate(catalog, locale, "activity.day.mon", configured_day(config, 0))
    } else if day == 3 {
        translate(catalog, locale, "activity.day.wed", configured_day(config, 1))
    } else if day == 5 {
        translate(catalog, locale, "activity.day.fri", configured_day(config, 2))
    } else {
        String::new()
    }
}

/// Every month a date can name has its calendar number as its translation
/// key: the abbreviation that two month digits give is looked up under
/// `activity.month.` followed by those same two digits, in any locale.
pub proof fn law_month_keys_are_calendar_numbers(
    catalog: Catalog,
    locale: Locale,
    a: u8,
    b: u8,
)
    requires
        month_from_digits(a, b).len() > 0,
    ensures
        month_number(month_from_digits(a, b)) == Some(seq![a as char, b as char]),
        localized_month_of(catalog, locale, month_from_digits(a, b)) == translation(
            catalog,
            locale,
            "activity.month."@ + seq![a as char, b as char],
            month_from_digits(a, b),
        ),
{
    reveal_strlit("Jan");
    reveal_strlit("Feb");
    reveal_strlit("Mar");
    reveal_strlit("Apr");
    reveal_strlit("May");
    reveal_strlit("Jun");
    reveal_strlit("Jul");
    reveal_strlit("Aug");
    reveal_strlit("Sep");
    reveal_strlit("Oct");
    reveal_strlit("Nov");
    reveal_strlit("Dec");
    reveal_strlit("01");
    reveal_strlit("02");
    reveal_strlit("03");
    reveal_strlit("04");
    reveal_strlit("05");
    reveal_strlit("06");
    reveal_strlit("07");
    reveal_strlit("08");
    reveal_strlit("09");
    reveal_strlit("10");
    reveal_strlit("11");
    reveal_strlit("12");
    if a == 48 && b == 49 {
        assert(month_from_digits(a, b) == "Jan"@);
        assert(month_number("Jan"@) == Some("01"@));
        assert(seq![a as char, b as char] =~= "01"@);
    } else if a == 48 && b == 50 {
        assert(month_from_digits(a, b) == "Feb"@);
        assert("Feb"@[0] != "Jan"@[0]);
        assert(month_number("Feb"@) == Some("02"@));
        assert(seq![a as char, b as char] =~= "02"@);
    } else if a == 48 && b == 51 {
        assert(month_from_digits(a, b) == "Mar"@);
        assert("Mar"@[0] != "Jan"@[0]);
        assert("Mar"@[0] != "Feb"@[0]);
        assert(month_number("Mar"@) == Some("03"@));
        assert(seq![a as char, b as char] =~= "03"@);
    } else if a == 48 && b == 52 {
        assert(month_from_digits(a, b) == "Apr"@);
        assert("Apr"@[0] != "Jan"@[0]);
        assert("Apr"@[0] != "Feb"@[0]);
        assert("Apr"@[0] != "Mar"@[0]);
        assert(month_number("Apr"@) == Some("04"@));
        assert(seq![a as char, b as char] =~= "04"@);
    } else if a == 48 && b == 53 {
        assert(month_from_digits(a, b) == "May"@);
        assert("May"@[0] != "Jan"@[0]);
        assert("May"@[0] != "Feb"@[0]);
        assert("May"@[2] != "Mar"@[2]);
        assert("May"@[0] != "Apr"@[0]);
        assert(month_number("May"@) == Some("05"@));
        assert(seq![a as char, b as char] =~= "05"@);
    } else if a == 48 && b == 54 {
        assert(month_from_digits(a, b) == "Jun"@);
        assert("Jun"@[1] != "Jan"@[1]);
        assert("Jun"@[0] != "Feb"@[0]);
        assert("Jun"@[0] != "Mar"@[0]);
        assert("Jun"@[0] != "Apr"@[0]);
        assert("Jun"@[0] != "May"@[0]);
        assert(month_number("Jun"@) == Some("06"@));
        assert(seq![a as char, b as char] =~= "06"@);
    } else if a == 48 && b == 55 {
        assert(month_from_digits(a, b) == "Jul"@);
        assert("Jul"@[1] != "Jan"@[1]);
        assert("Jul"@[0] != "Feb"@[0]);
        assert("Jul"@[0] != "Mar"@[0]);
        assert("Jul"@[0] != "Apr"@[0]);
        assert("Jul"@[0] != "May"@[0]);
        assert("Jul"@[2] != "Jun"@[2]);
        assert(month_number("Jul"@) == Some("07"@));
        assert(seq![a as char, b as char] =~= "07"@);
    } else if a == 48 && b == 56 {
        assert(month_from_digits(a, b) == "Aug"@);
        assert("Aug"@[0] != "Jan"@[0]);
        assert("Aug"@[0] != "Feb"@[0]);
        assert("Aug"@[0] != "Mar"@[0]);
        assert("Aug"@[1] != "Apr"@[1]);
        assert("Aug"@[0] != "May"@[0]);
        assert("Aug"@[0] != "Jun"@[0]);
        assert("Aug"@[0] != "Jul"@[0]);
        assert(month_number("Aug"@) == Some("08"@));
        assert(seq![a as char, b as char] =~= "08"@);
    } else if a == 48 && b == 57 {
        assert(month_from_digits(a, b) == "Sep"@);
        assert("Sep"@[0] != "Jan"@[0]);
        assert("Sep"@[0] != "Feb"@[0]);
        assert("Sep"@[0] != "Mar"@[0]);
        assert("Sep"@[0] != "Apr"@[0]);
        assert("Sep"@[0] != "May"@[0]);
        assert("Sep"@[0] != "Jun"@[0]);
        assert("Sep"@[0] != "Jul"@[0]);
        assert("Sep"@[0] != "Aug"@[0]);
        assert(month_number("Sep"@) == Some("09"@));
        assert(seq![a as char, b as char] =~= "09"@);
    } else if a == 49 && b == 48 {
        assert(month_from_digits(a, b) == "Oct"@);
        assert("Oct"@[0] != "Jan"@[0]);
        assert("Oct"@[0] != "Feb"@[0]);
        assert("Oct"@[0] != "Mar"@[0]);
        assert("Oct"@[0] != "Apr"@[0]);
        assert("Oct"@[0] != "May"@[0]);
        assert("Oct"@[0] != "Jun"@[0]);
        assert("Oct"@[0] != "Jul"@[0]);
        assert("Oct"@[0] != "Aug"@[0]);
        assert("Oct"@[0] != "Sep"@[0]);
        assert(month_number("Oct"@) == Some("10"@));
        assert(seq![a as char, b as char] =~= "10"@);
    } else if a == 49 && b == 49 {
        assert(month_from_digits(a, b) == "Nov"@);
        assert("Nov"@[0] != "Jan"@[0]);
        assert("Nov"@[0] != "Feb"@[0]);
        assert("Nov"@[0] != "Mar"@[0]);
        assert("Nov"@[0] != "Apr"@[0]);
        assert("Nov"@[0] != "May"@[0]);
        assert("Nov"@[0] != "Jun"@[0]);
        assert("Nov"@[0] != "Jul"@[0]);
        assert("Nov"@[0] != "Aug"@[0]);
        assert("Nov"@[0] != "Sep"@[0]);
        assert("Nov"@[0] != "Oct"@[0]);
        assert(month_number("Nov"@) == Some("11"@));
        assert(seq![a as char, b as char] =~= "11"@);
    } else if a == 49 && b == 50 {
        assert(month_from_digits(a, b) == "Dec"@);
        assert("Dec"@[0] != "Jan"@[0]);
        assert("Dec"@[0] != "Feb"@[0]);
        assert("Dec"@[0] != "Mar"@[0]);
        assert("Dec"@[0] != "Apr"@[0]);
        assert("Dec"@[0] != "May"@[0]);
        assert("Dec"@[0] != "Jun"@[0]);
        assert("Dec"@[0] != "Jul"@[0]);
        assert("Dec"@[0] != "Aug"@[0]);
        assert("Dec"@[0] != "Sep"@[0]);
        assert("Dec"@[0] != "Oct"@[0]);
        assert("Dec"@[0] != "Nov"@[0]);
        assert(month_number("Dec"@) == Some("12"@));
        assert(seq![a as char, b as char] =~= "12"@);
    }
}

/// The weekday rows take the configured day labels in order: in English
/// rows 1, 3 and 5 (Monday, Wednesday, Friday) show the first, second and
/// third label; every other row is blank in any locale.
pub proof fn law_day_rows_follow_configured_labels(
    config: ActivityConfig,
    catalog: Catalog,
    locale: Locale,
    day: int,
)
    ensures
        forall|i: int|
            0 <= i < 3 && i < config.day_labels@.len() ==> #[trigger] day_label_of(
                config,
                catalog,
                Locale::English,
                2 * i + 1,
            ) == config.day_labels@[i]@,
        day != 1 && day != 3 && day != 5 ==> day_label_of(config, catalog, locale, day).len() == 0,
{
}

/// No two non-empty labels are less than three weeks apart.
pub open spec fn labels_spaced(labels: Seq<Seq<char>>) -> bool {
    forall|p: int, q: int|
        0 <= p < q < labels.len() && (#[trigger] labels[p]).len() > 0 && (#[trigger] labels[q]).len()
            > 0 ==> q - p >= 3
}

spec fn spaced_upto(labels: Seq<Seq<char>>, n: int) -> bool {
    forall|p: int, q: int|
        0 <= p < q < n && (#[trigger] labels[p]).len() > 0 && (#[trigger] labels[q]).len() > 0
            ==> q - p >= 3
}

spec fn last_label_before(labels: Seq<Seq<char>>, n: int, prev: Option<int>) -> bool {
    match prev {
        Some(p) => 0 <= p < n && labels[p].len() > 0 && forall|j: int|
            p < j < n ==> (#[trigger] labels[j]).len() == 0,
        None => forall|j: int| 0 <= j < n ==> (#[trigger] labels[j]).len() == 0,
    }
}

proof fn lemma_thin_spaced(labels: Seq<Seq<char>>, i: int, prev: Option<int>)
    requires
        0 <= i <= labels.len(),
        spaced_upto(labels, i),
        last_label_before(labels, i, prev),
    ensures
        thin_labels(labels, i, prev).len() == labels.len(),
        labels_spaced(thin_labels(labels, i, prev)),
    decreases labels.len() - i,
{
    if i == labels.len() {
    } else if labels[i].len() == 0 {
        assert(spaced_upto(labels, i + 1));
        lemma_thin_spaced(labels, i + 1, prev);
    } else {
        let cleared = match prev {
            Some(p) => if 0 <= p < labels.len() && i - p < 3 {
                labels.update(p, seq![])
            } else {
                labels
            },
            None => labels,
        };
        assert(cleared.len() == labels.len());
        assert(cleared[i] == labels[i]);
        assert forall|j: int| 0 <= j < labels.len() && (#[trigger] cleared[j]).len() > 0 implies labels[j]
            == cleared[j] by {}
        assert(spaced_upto(cleared, i + 1)) by {
            assert forall|p: int, q: int|
                0 <= p < q < i + 1 && (#[trigger] cleared[p]).len() > 0 && (#[trigger] cleared[q]).len()
                    > 0 implies q - p >= 3 by {
                assert(labels[p] == cleared[p]);
                assert(labels[q] == cleared[q]);
                if q == i {
                    match prev {
                        Some(pp) => {
                            if p < pp {
                                assert(labels[pp].len() > 0);
                                assert(pp - p >= 3);
                            } else if p > pp {
                                assert(labels[p].len() == 0);
                            } else {
                                assert(i - pp >= 3);
                            }
                        },
                        None => {
                            assert(labels[p].len() == 0);
                        },
                    }
                }
            }
        }
        assert(last_label_before(cleared, i + 1, Some(i)));
        lemma_thin_spaced(cleared, i + 1, Some(i));
    }
}

/// Month labels taken from the cell dates are never crowded: no two
/// non-empty labels are less than three weeks apart, and there is one
/// label per week.
pub proof fn law_dated_month_labels_are_spaced(
    weeks: Seq<Vec<GithubContribution>>,
    fallback: Seq<Seq<char>>,
)
    requires
        any_dated(weeks),
    ensures
        month_labels_of(weeks, fallback).len() == weeks.len(),
        labels_spaced(month_labels_of(weeks, fallback)),
{
    let raw = Seq::new(weeks.len(), |i: int| raw_week_label(weeks[i]@, i));
    lemma_thin_spaced(raw, 0, None);
}

} // verus!
