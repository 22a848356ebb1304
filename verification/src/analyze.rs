//! The multi-view usage analysis: totals, activation ranking, two-hour heatmap and
//! first-seen schedule, rendered as text.
use vstd::prelude::*;
use crate::desktop::{resolve, resolved_name, DesktopDB};
use crate::names::NameMap;
use crate::order::{desc_order, desc_order_of, lemma_desc_order};
use crate::render::{duration_text, push_duration};
use crate::dates::shows_local_time;
use crate::text::{
    chars_of, concat, decimal, decimal_of, first_rows, lemma_concat_step, pad_left, pad_right,
    push_chars, push_pad_left, push_pad_right, push_repeat, push_str, repeat, string_of,
    trun, truncated,
};

verus! {

/// A usage row: application id, seconds of focus, number of activations.
pub type UsageRow = (String, i64, i64);

/// The name shown for an application in the analysis: its display name cut to 32
/// characters.
pub open spec fn shown_name(app: Seq<char>, d: Map<Seq<char>, Seq<char>>, m: Map<Seq<char>, Seq<char>>) -> Seq<char> {
    truncated(resolved_name(app, Seq::empty(), d, m), 32)
}

/// The display name of an application, resolved without an executable path.
pub fn name(app_id: &str, desktop: &DesktopDB, app_meta: &NameMap) -> (r: String)
    ensures
        r@ == resolved_name(app_id@, Seq::empty(), desktop.names(), app_meta@),
{
    proof { reveal_strlit(""); }
    assert(""@ =~= Seq::<char>::empty());
    resolve(app_id, "", desktop, app_meta)
}

fn push_name(out: &mut Vec<char>, app: &String, desktop: &DesktopDB, meta: &NameMap)
    ensures
        final(out)@ == old(out)@ + pad_right(shown_name(app@, desktop.names(), meta@), 32),
{
    let n = name(app.as_str(), desktop, meta);
    let t = trun(n.as_str(), 32);
    let tc = chars_of(t.as_str());
    push_pad_right(out, &tc, 32);
}

fn push_padded_literal_left(out: &mut Vec<char>, s: &str, w: usize)
    ensures
        final(out)@ == old(out)@ + pad_left(s@, w as nat),
{
    let c = chars_of(s);
    push_pad_left(out, &c, w);
}

fn push_padded_literal_right(out: &mut Vec<char>, s: &str, w: usize)
    ensures
        final(out)@ == old(out)@ + pad_right(s@, w as nat),
{
    let c = chars_of(s);
    push_pad_right(out, &c, w);
}

fn push_decimal_left(out: &mut Vec<char>, n: i64, w: usize)
    ensures
        final(out)@ == old(out)@ + pad_left(decimal(n as int), w as nat),
{
    let c = decimal_of(n);
    push_pad_left(out, &c, w);
}

fn push_duration_left(out: &mut Vec<char>, secs: i64, w: usize)
    ensures
        final(out)@ == old(out)@ + pad_left(duration_text(secs as int), w as nat),
{
    let mut d: Vec<char> = Vec::new();
    push_duration(&mut d, secs);
    push_pad_left(out, &d, w);
}

// ---------------------------------------------------------------- duration view

/// One line of the duration view: name, time, activations.
pub open spec fn duration_row(r: UsageRow, d: Map<Seq<char>, Seq<char>>, m: Map<Seq<char>, Seq<char>>) -> Seq<char> {
    "  "@ + pad_right(shown_name(r.0@, d, m), 32) + " "@ + pad_left(duration_text(r.1 as int), 12)
        + " "@ + pad_left(decimal(r.2 as int), 8) + "\n"@
}

fn push_duration_row(out: &mut Vec<char>, row: &UsageRow, desktop: &DesktopDB, meta: &NameMap)
    ensures
        final(out)@ == old(out)@ + duration_row(*row, desktop.names(), meta@),
{
    push_str(out, "  ");
    push_name(out, &row.0, desktop, meta);
    push_str(out, " ");
    push_duration_left(out, row.1, 12);
    push_str(out, " ");
    push_decimal_left(out, row.2, 8);
    push_str(out, "\n");
    assert(out@ =~= old(out)@ + duration_row(*row, desktop.names(), meta@));
}

/// The duration view: the first 12 rows in the order given.
pub open spec fn duration_section(stats: Seq<UsageRow>, d: Map<Seq<char>, Seq<char>>, m: Map<Seq<char>, Seq<char>>) -> Seq<char> {
    "  ── Duration ──\n"@ + "  "@ + pad_right("APP"@, 32) + " "@ + pad_left("TIME"@, 12) + " "@
        + pad_left("TIMES"@, 8) + "\n"@ + "  "@ + repeat('-', 54) + "\n"@
        + concat(first_rows(stats, 12).map_values(|r: UsageRow| duration_row(r, d, m))) + "\n"@
}

/// Renders the duration view.
pub fn render_duration(stats: &Vec<UsageRow>, desktop: &DesktopDB, app_meta: &NameMap) -> (r: String)
    ensures
        r@ == duration_section(stats@, desktop.names(), app_meta@),
{
    let ghost d = desktop.names();
    let ghost m = app_meta@;
    let mut out: Vec<char> = Vec::new();
    push_str(&mut out, "  ── Duration ──\n");
    push_str(&mut out, "  ");
    push_padded_literal_right(&mut out, "APP", 32);
    push_str(&mut out, " ");
    push_padded_literal_left(&mut out, "TIME", 12);
    push_str(&mut out, " ");
    push_padded_literal_left(&mut out, "TIMES", 8);
    push_str(&mut out, "\n");
    push_str(&mut out, "  ");
    push_repeat(&mut out, '-', 54);
    push_str(&mut out, "\n");
    let ghost start = out@;
    let ghost rows = first_rows(stats@, 12).map_values(|r: UsageRow| duration_row(r, d, m));
    let n: usize = if stats.len() < 12 { stats.len() } else { 12 };
    assert(rows.take(0) =~= Seq::<Seq<char>>::empty());
    let mut i: usize = 0;
    while i < n
        invariant
            i <= n,
            n == rows.len(),
            n <= stats.len(),
            rows == first_rows(stats@, 12).map_values(|r: UsageRow| duration_row(r, d, m)),
            d == desktop.names(),
            m == app_meta@,
            out@ == start + concat(rows.take(i as int)),
        decreases n - i,
    {
        push_duration_row(&mut out, &stats[i], desktop, app_meta);
        proof {
            assert(rows[i as int] == duration_row(stats@[i as int], d, m));
            lemma_concat_step(rows, i as int);
        }
        i = i + 1;
    }
    push_str(&mut out, "\n");
    assert(rows.take(n as int) =~= rows);
    assert(out@ =~= duration_section(stats@, d, m));
    string_of(&out)
}


// ------------------------------------------------------------- activations view

/// The activation counts of the rows.
pub open spec fn activation_keys(stats: Seq<UsageRow>) -> Seq<i64> {
    stats.map_values(|r: UsageRow| r.2)
}

/// The rows from most to fewest activations; rows with equal counts keep their order.
pub open spec fn by_activations(stats: Seq<UsageRow>) -> Seq<UsageRow> {
    desc_order(activation_keys(stats)).map_values(|j: usize| stats[j as int])
}

/// Law: the activation ranking holds each row once, orders the rows from most to
/// fewest activations, and keeps rows with equal counts in their given order.
pub proof fn lemma_activation_ranking(stats: Seq<UsageRow>)
    requires
        stats.len() <= usize::MAX,
    ensures
        by_activations(stats).len() == stats.len(),
        forall|p: int, q: int|
            0 <= p < q < stats.len() ==> by_activations(stats)[p].2 >= by_activations(stats)[q].2,
        forall|p: int| #![trigger by_activations(stats)[p]] 0 <= p < stats.len() ==> exists|j: int| 0 <= j < stats.len() && by_activations(stats)[p] == #[trigger] stats[j],
        forall|j: int| #![trigger stats[j]] 0 <= j < stats.len() ==> exists|p: int| 0 <= p < stats.len() && #[trigger] by_activations(stats)[p] == stats[j],
{
    let keys = activation_keys(stats);
    let order = desc_order(keys);
    lemma_desc_order(keys);
    assert forall|p: int, q: int| 0 <= p < q < stats.len() implies by_activations(stats)[p].2 >= by_activations(stats)[q].2 by {
        assert(keys[order[p] as int] >= keys[order[q] as int]);
    }
    assert forall|p: int| #![trigger by_activations(stats)[p]] 0 <= p < stats.len() implies exists|j: int| 0 <= j < stats.len() && by_activations(stats)[p] == #[trigger] stats[j] by {
        assert(by_activations(stats)[p] == stats[order[p] as int]);
    }
    assert forall|j: int| #![trigger stats[j]] 0 <= j < stats.len() implies exists|p: int| 0 <= p < stats.len() && #[trigger] by_activations(stats)[p] == stats[j] by {
        crate::order::lemma_index_covered(order, stats.len(), j);
        let p = choose|p: int| 0 <= p < order.len() && order[p] as int == j;
        assert(by_activations(stats)[p] == stats[j]);
    }
}

/// One line of the activation view: name, activations, time.
pub open spec fn activation_row(r: UsageRow, d: Map<Seq<char>, Seq<char>>, m: Map<Seq<char>, Seq<char>>) -> Seq<char> {
    "  "@ + pad_right(shown_name(r.0@, d, m), 32) + " "@ + pad_left(decimal(r.2 as int), 8) + " "@
        + pad_left(duration_text(r.1 as int), 12) + "\n"@
}

/// The activation view: the 12 rows with the most activations.
pub open spec fn activation_section(stats: Seq<UsageRow>, d: Map<Seq<char>, Seq<char>>, m: Map<Seq<char>, Seq<char>>) -> Seq<char> {
    "  ── Activations ──\n"@ + "  "@ + pad_right("APP"@, 32) + " "@ + pad_left("SWITCHES"@, 8) + " "@
        + pad_left("TIME"@, 12) + "\n"@ + "  "@ + repeat('-', 54) + "\n"@
        + concat(first_rows(by_activations(stats), 12).map_values(|r: UsageRow| activation_row(r, d, m)))
        + "\n"@
}

/// The heading of the activation view.
pub open spec fn activation_head() -> Seq<char> {
    "  ── Activations ──\n"@ + "  "@ + pad_right("APP"@, 32) + " "@ + pad_left("SWITCHES"@, 8) + " "@
        + pad_left("TIME"@, 12) + "\n"@ + "  "@ + repeat('-', 54) + "\n"@
}

/// Law: the activation view lists, under its heading, the first 12 rows (all when
/// there are fewer) of an ordering of all the rows that holds each row once, goes
/// from most to fewest activations, and keeps rows with equal counts in their given
/// order, whatever time they were used.
pub proof fn lemma_activation_view(stats: Seq<UsageRow>, d: Map<Seq<char>, Seq<char>>, m: Map<Seq<char>, Seq<char>>)
    requires
        stats.len() <= usize::MAX,
    ensures
        exists|o: Seq<usize>|
            {
                &&& crate::order::is_permutation_of_indices(o, stats.len())
                &&& forall|p: int, q: int|
                    0 <= p < q < o.len() ==> stats[o[p] as int].2 >= stats[o[q] as int].2
                &&& forall|p: int, q: int|
                    0 <= p < q < o.len() && stats[o[p] as int].2 == stats[o[q] as int].2 ==> o[p] < o[q]
                &&& activation_section(stats, d, m) == activation_head() + concat(
                    first_rows(o.map_values(|j: usize| stats[j as int]), 12).map_values(
                        |r: UsageRow| activation_row(r, d, m),
                    ),
                ) + "\n"@
            },
{
    let keys = activation_keys(stats);
    let o = desc_order(keys);
    lemma_desc_order(keys);
    assert forall|p: int, q: int| 0 <= p < q < o.len() implies stats[o[p] as int].2 >= stats[o[q] as int].2 by {
        assert(keys[o[p] as int] >= keys[o[q] as int]);
    }
    assert forall|p: int, q: int|
        0 <= p < q < o.len() && stats[o[p] as int].2 == stats[o[q] as int].2 implies o[p] < o[q] by {
        assert(keys[o[p] as int] == keys[o[q] as int]);
    }
    assert(by_activations(stats) == o.map_values(|j: usize| stats[j as int]));
}

/// The pieces joined, read from the front: the first piece, then the rest.
proof fn lemma_concat_front(pieces: Seq<Seq<char>>)
    requires
        pieces.len() > 0,
    ensures
        concat(pieces) == pieces[0] + concat(pieces.drop_first()),
    decreases pieces.len(),
{
    if pieces.len() == 1 {
        assert(pieces.drop_first() =~= Seq::<Seq<char>>::empty());
        assert(pieces.drop_last() =~= Seq::<Seq<char>>::empty());
        assert(concat(pieces.drop_last()) == Seq::<char>::empty());
        assert(pieces.last() == pieces[0]);
        assert(concat(pieces.drop_first()) == Seq::<char>::empty());
        assert(concat(pieces) =~= pieces[0] + concat(pieces.drop_first()));
    } else {
        lemma_concat_front(pieces.drop_last());
        assert(pieces.drop_last().drop_first() =~= pieces.drop_first().drop_last());
        assert(pieces.drop_first().last() == pieces.last());
        assert(concat(pieces) =~= pieces[0] + concat(pieces.drop_first()));
    }
}

/// Law: a row with more activations than every other row opens the activation view,
/// whatever time it was used.
pub proof fn lemma_most_switched_first(
    stats: Seq<UsageRow>,
    i: int,
    d: Map<Seq<char>, Seq<char>>,
    m: Map<Seq<char>, Seq<char>>,
)
    requires
        stats.len() <= usize::MAX,
        0 <= i < stats.len(),
        forall|j: int| 0 <= j < stats.len() && j != i ==> stats[j].2 < stats[i].2,
    ensures
        exists|rest: Seq<char>|
            activation_section(stats, d, m) == activation_head() + activation_row(stats[i], d, m) + rest,
{
    let keys = activation_keys(stats);
    let o = desc_order(keys);
    lemma_desc_order(keys);
    crate::order::lemma_index_covered(o, stats.len(), i);
    let q = choose|q: int| 0 <= q < o.len() && o[q] as int == i;
    if q != 0 {
        assert(keys[o[0] as int] >= keys[o[q] as int]);
        assert(o[0] != o[q]);
    }
    assert(o[0] as int == i);
    let sorted = by_activations(stats);
    assert(sorted[0] == stats[i]);
    let rows = first_rows(sorted, 12).map_values(|r: UsageRow| activation_row(r, d, m));
    assert(rows.len() > 0);
    assert(rows[0] == activation_row(stats[i], d, m));
    lemma_concat_front(rows);
    let rest = concat(rows.drop_first()) + "\n"@;
    assert(activation_section(stats, d, m) =~= activation_head() + activation_row(stats[i], d, m) + rest);
}

fn push_activation_row(out: &mut Vec<char>, row: &UsageRow, desktop: &DesktopDB, meta: &NameMap)
    ensures
        final(out)@ == old(out)@ + activation_row(*row, desktop.names(), meta@),
{
    push_str(out, "  ");
    push_name(out, &row.0, desktop, meta);
    push_str(out, " ");
    push_decimal_left(out, row.2, 8);
    push_str(out, " ");
    push_duration_left(out, row.1, 12);
    push_str(out, "\n");
    assert(out@ =~= old(out)@ + activation_row(*row, desktop.names(), meta@));
}

/// Renders the activation view.
pub fn render_activations(stats: &Vec<UsageRow>, desktop: &DesktopDB, app_meta: &NameMap) -> (r: String)
    ensures
        r@ == activation_section(stats@, desktop.names(), app_meta@),
{
    let ghost d = desktop.names();
    let ghost m = app_meta@;
    let mut keys: Vec<i64> = Vec::new();
    let mut k: usize = 0;
    while k < stats.len()
        invariant
            k <= stats.len(),
            keys@ == activation_keys(stats@).take(k as int),
        decreases stats.len() - k,
    {
        keys.push(stats[k].2);
        k = k + 1;
        assert(keys@ =~= activation_keys(stats@).take(k as int));
    }
    assert(keys@ =~= activation_keys(stats@));
    let order = desc_order_of(&keys);
    proof { lemma_desc_order(keys@); }
    let mut out: Vec<char> = Vec::new();
    push_str(&mut out, "  ── Activations ──\n");
    push_str(&mut out, "  ");
    push_padded_literal_right(&mut out, "APP", 32);
    push_str(&mut out, " ");
    push_padded_literal_left(&mut out, "SWITCHES", 8);
    push_str(&mut out, " ");
    push_padded_literal_left(&mut out, "TIME", 12);
    push_str(&mut out, "\n");
    push_str(&mut out, "  ");
    push_repeat(&mut out, '-', 54);
    push_str(&mut out, "\n");
    let ghost start = out@;
    let ghost sorted = by_activations(stats@);
    let ghost rows = first_rows(sorted, 12).map_values(|r: UsageRow| activation_row(r, d, m));
    let n: usize = if stats.len() < 12 { stats.len() } else { 12 };
    assert(rows.take(0) =~= Seq::<Seq<char>>::empty());
    let mut i: usize = 0;
    while i < n
        invariant
            i <= n,
            n == rows.len(),
            n <= stats.len(),
            order@ == desc_order(activation_keys(stats@)),
            crate::order::is_permutation_of_indices(order@, stats@.len()),
            sorted == by_activations(stats@),
            rows == first_rows(sorted, 12).map_values(|r: UsageRow| activation_row(r, d, m)),
            d == desktop.names(),
            m == app_meta@,
            out@ == start + concat(rows.take(i as int)),
        decreases n - i,
    {
        push_activation_row(&mut out, &stats[order[i]], desktop, app_meta);
        proof {
            assert(sorted[i as int] == stats@[order@[i as int] as int]);
            assert(rows[i as int] == activation_row(sorted[i as int], d, m));
            lemma_concat_step(rows, i as int);
        }
        i = i + 1;
    }
    push_str(&mut out, "\n");
    assert(rows.take(n as int) =~= rows);
    assert(out@ =~= activation_section(stats@, d, m));
    string_of(&out)
}


// ------------------------------------------------------------------ heatmap view

/// An hourly usage row: application id, hour of the day, seconds.
pub type HourRow = (String, i64, i64);

/// The two-hour bucket of an hour of the day (`hour / 2` for hours 0 to 23; other
/// values fall in no bucket).
pub open spec fn hour_bucket(hour: int) -> Option<int> {
    if 0 <= hour < 24 { Some(hour / 2) } else { None }
}

/// The seconds that `rows` give to bucket `b`, counting only the rows of `app` when
/// an application is given.
pub open spec fn bucket_total(rows: Seq<HourRow>, app: Option<Seq<char>>, b: int) -> int
    decreases rows.len(),
{
    if rows.len() == 0 {
        0
    } else {
        let r = rows.last();
        bucket_total(rows.drop_last(), app, b) + if (app is None || app == Some(r.0@))
            && hour_bucket(r.1 as int) == Some(b) {
            r.2 as int
        } else {
            0
        }
    }
}

/// Adding the rows one at a time into the bucket totals never leaves the `i64` range.
pub open spec fn bucket_sums_fit(rows: Seq<HourRow>, app: Option<Seq<char>>) -> bool {
    forall|k: int, b: int|
        0 <= k <= rows.len() && 0 <= b < 12 ==> i64::MIN <= #[trigger] bucket_total(rows.take(k), app, b)
            <= i64::MAX
}

/// The per-application bucket totals of every application fit in `i64` at every step.
pub open spec fn all_app_sums_fit(rows: Seq<HourRow>) -> bool {
    forall|a: Seq<char>| #[trigger] bucket_sums_fit(rows, Some(a))
}

/// The view of an optional application id.
pub open spec fn opt_app(app: Option<&String>) -> Option<Seq<char>> {
    match app {
        Some(a) => Some(a@),
        None => None,
    }
}

/// The twelve two-hour bucket totals of `rows`, of `app` only when it is given.
pub fn bucket_totals(rows: &Vec<HourRow>, app: Option<&String>) -> (r: Vec<i64>)
    requires
        bucket_sums_fit(rows@, opt_app(app)),
    ensures
        r@.len() == 12,
        forall|b: int| 0 <= b < 12 ==> r@[b] as int == bucket_total(rows@, opt_app(app), b),
{
    let ghost ap = opt_app(app);
    let mut totals: Vec<i64> = vec![0i64; 12];
    let mut k: usize = 0;
    assert(rows@.take(0) =~= Seq::<HourRow>::empty());
    while k < rows.len()
        invariant
            k <= rows.len(),
            ap == opt_app(app),
            bucket_sums_fit(rows@, ap),
            totals@.len() == 12,
            forall|b: int| 0 <= b < 12 ==> totals@[b] as int == bucket_total(rows@.take(k as int), ap, b),
        decreases rows.len() - k,
    {
        let r = &rows[k];
        let ghost pre = rows@.take(k as int);
        let ghost post = rows@.take(k + 1);
        assert(post.drop_last() =~= pre);
        assert(post.last() == rows@[k as int]);
        let matches = match app {
            Some(a) => r.0 == *a,
            None => true,
        };
        if matches && 0 <= r.1 && r.1 < 24 {
            let b: usize = (r.1 / 2) as usize;
            assert(bucket_total(post, ap, b as int) == bucket_total(pre, ap, b as int) + r.2);
            assert(i64::MIN <= bucket_total(post, ap, b as int) <= i64::MAX);
            let v = totals[b] + r.2;
            totals.set(b, v);
        }
        assert forall|b: int| 0 <= b < 12 implies totals@[b] as int == bucket_total(post, ap, b) by {}
        k = k + 1;
    }
    assert(rows@.take(rows.len() as int) =~= rows@);
    totals
}

/// The seconds of the rows (of `app` when given) whose hour falls in a bucket.
pub open spec fn bucketed_total(rows: Seq<HourRow>, app: Option<Seq<char>>) -> int
    decreases rows.len(),
{
    if rows.len() == 0 {
        0
    } else {
        let r = rows.last();
        bucketed_total(rows.drop_last(), app) + if (app is None || app == Some(r.0@)) && hour_bucket(r.1 as int) is Some {
            r.2 as int
        } else {
            0
        }
    }
}

/// The totals of the first `n` buckets added up.
pub open spec fn sum_of_buckets(rows: Seq<HourRow>, app: Option<Seq<char>>, n: int) -> int
    decreases n,
{
    if n <= 0 { 0 } else { sum_of_buckets(rows, app, n - 1) + bucket_total(rows, app, n - 1) }
}

proof fn lemma_sum_of_buckets_step(rows: Seq<HourRow>, app: Option<Seq<char>>, n: int)
    requires
        rows.len() > 0,
        0 <= n <= 12,
    ensures
        sum_of_buckets(rows, app, n) == sum_of_buckets(rows.drop_last(), app, n) + {
            let r = rows.last();
            if (app is None || app == Some(r.0@)) && hour_bucket(r.1 as int) is Some && (r.1 as int) / 2 < n {
                r.2 as int
            } else {
                0
            }
        },
    decreases n,
{
    if n > 0 {
        lemma_sum_of_buckets_step(rows, app, n - 1);
    }
}

/// Law: the twelve bucket totals add up to the seconds of every row whose hour is an
/// hour of the day; no second is counted twice or lost.
pub proof fn lemma_buckets_partition(rows: Seq<HourRow>, app: Option<Seq<char>>)
    ensures
        sum_of_buckets(rows, app, 12) == bucketed_total(rows, app),
    decreases rows.len(),
{
    if rows.len() > 0 {
        lemma_buckets_partition(rows.drop_last(), app);
        lemma_sum_of_buckets_step(rows, app, 12);
        let r = rows.last();
        if hour_bucket(r.1 as int) is Some {
            assert((r.1 as int) / 2 < 12);
        }
    } else {
        lemma_no_rows_no_seconds(rows, app, 12);
    }
}

proof fn lemma_no_rows_no_seconds(rows: Seq<HourRow>, app: Option<Seq<char>>, n: int)
    requires
        rows.len() == 0,
    ensures
        sum_of_buckets(rows, app, n) == 0,
    decreases n,
{
    if n > 0 {
        lemma_no_rows_no_seconds(rows, app, n - 1);
    }
}

/// The heatmap symbol for `v` seconds in a bucket.
pub open spec fn heat_char(v: int) -> char {
    if v > 3600 {
        '█'
    } else if v > 1800 {
        '▓'
    } else if v > 600 {
        '▒'
    } else if v > 60 {
        '░'
    } else {
        ' '
    }
}

fn heat_symbol(v: i64) -> (c: char)
    ensures
        c == heat_char(v as int),
{
    if v > 3600 {
        '█'
    } else if v > 1800 {
        '▓'
    } else if v > 600 {
        '▒'
    } else if v > 60 {
        '░'
    } else {
        ' '
    }
}

/// The twelve cells of one heatmap line.
pub open spec fn heat_cells(totals: Seq<int>) -> Seq<char>
    decreases totals.len(),
{
    if totals.len() == 0 {
        Seq::empty()
    } else {
        heat_cells(totals.drop_last()) + seq![' ', heat_char(totals.last()), ' ', ' ']
    }
}

/// One heatmap line: the application's name and its twelve buckets.
pub open spec fn heat_row(app: Seq<char>, hourly: Seq<HourRow>, d: Map<Seq<char>, Seq<char>>, m: Map<Seq<char>, Seq<char>>) -> Seq<char> {
    "  "@ + pad_right(shown_name(app, d, m), 32) + heat_cells(
        Seq::new(12, |b: int| bucket_total(hourly, Some(app), b)),
    ) + "\n"@
}

/// The column headings of the heatmap: `00-02 ` to `22-24 `.
pub open spec fn heat_hours() -> Seq<char> {
    "00-02 02-04 04-06 06-08 08-10 10-12 12-14 14-16 16-18 18-20 20-22 22-24 "@
}

/// The heatmap view: a line for each of the first 6 applications of `stats`.
pub open spec fn heatmap_section(hourly: Seq<HourRow>, stats: Seq<UsageRow>, d: Map<Seq<char>, Seq<char>>, m: Map<Seq<char>, Seq<char>>) -> Seq<char> {
    "  ── Heatmap (2h buckets) ──\n"@ + "  "@ + repeat(' ', 32) + heat_hours() + "\n"@
        + concat(first_rows(stats, 6).map_values(|r: UsageRow| heat_row(r.0@, hourly, d, m)))
        + "  █ >1h  ▓ >30m  ▒ >10m  ░ >1m\n"@ + "\n"@
}

fn push_heat_row(out: &mut Vec<char>, app: &String, hourly: &Vec<HourRow>, desktop: &DesktopDB, meta: &NameMap)
    requires
        all_app_sums_fit(hourly@),
    ensures
        final(out)@ == old(out)@ + heat_row(app@, hourly@, desktop.names(), meta@),
{
    assert(bucket_sums_fit(hourly@, Some(app@)));
    let totals = bucket_totals(hourly, Some(app));
    let ghost tot = Seq::new(12, |b: int| bucket_total(hourly@, Some(app@), b));
    push_str(out, "  ");
    push_name(out, app, desktop, meta);
    let ghost start = out@;
    let mut b: usize = 0;
    assert(tot.take(0) =~= Seq::<int>::empty());
    while b < 12
        invariant
            b <= 12,
            totals@.len() == 12,
            tot == Seq::new(12, |b: int| bucket_total(hourly@, Some(app@), b)),
            forall|c: int| 0 <= c < 12 ==> totals@[c] as int == tot[c],
            out@ == start + heat_cells(tot.take(b as int)),
        decreases 12 - b,
    {
        let ch = heat_symbol(totals[b]);
        out.push(' ');
        out.push(ch);
        out.push(' ');
        out.push(' ');
        assert(tot.take(b + 1).drop_last() =~= tot.take(b as int));
        b = b + 1;
        assert(out@ =~= start + heat_cells(tot.take(b as int)));
    }
    assert(tot.take(12) =~= tot);
    push_str(out, "\n");
    assert(out@ =~= old(out)@ + heat_row(app@, hourly@, desktop.names(), meta@));
}

/// Renders the heatmap view.
pub fn render_heatmap(hourly: &Vec<HourRow>, stats: &Vec<UsageRow>, desktop: &DesktopDB, app_meta: &NameMap) -> (r: String)
    requires
        all_app_sums_fit(hourly@),
    ensures
        r@ == heatmap_section(hourly@, stats@, desktop.names(), app_meta@),
{
    let ghost d = desktop.names();
    let ghost m = app_meta@;
    let mut out: Vec<char> = Vec::new();
    push_str(&mut out, "  ── Heatmap (2h buckets) ──\n");
    push_str(&mut out, "  ");
    push_repeat(&mut out, ' ', 32);
    push_str(&mut out, "00-02 02-04 04-06 06-08 08-10 10-12 12-14 14-16 16-18 18-20 20-22 22-24 ");
    push_str(&mut out, "\n");
    let ghost start = out@;
    let ghost rows = first_rows(stats@, 6).map_values(|r: UsageRow| heat_row(r.0@, hourly@, d, m));
    let n: usize = if stats.len() < 6 { stats.len() } else { 6 };
    assert(rows.take(0) =~= Seq::<Seq<char>>::empty());
    let mut i: usize = 0;
    while i < n
        invariant
            i <= n,
            n == rows.len(),
            n <= stats.len(),
            all_app_sums_fit(hourly@),
            rows == first_rows(stats@, 6).map_values(|r: UsageRow| heat_row(r.0@, hourly@, d, m)),
            d == desktop.names(),
            m == app_meta@,
            out@ == start + concat(rows.take(i as int)),
        decreases n - i,
    {
        push_heat_row(&mut out, &stats[i].0, hourly, desktop, app_meta);
        proof {
            assert(rows[i as int] == heat_row(stats@[i as int].0@, hourly@, d, m));
            lemma_concat_step(rows, i as int);
        }
        i = i + 1;
    }
    push_str(&mut out, "  █ >1h  ▓ >30m  ▒ >10m  ░ >1m\n");
    push_str(&mut out, "\n");
    assert(rows.take(n as int) =~= rows);
    assert(out@ =~= heatmap_section(hourly@, stats@, d, m));
    string_of(&out)
}


// ----------------------------------------------------------------- schedule view

/// A first-seen row: application id, average first-seen Unix time.
pub type SeenRow = (String, i64);

/// One line of the schedule view: name and local time of first activity.
pub open spec fn schedule_row(app: Seq<char>, time: Seq<char>, d: Map<Seq<char>, Seq<char>>, m: Map<Seq<char>, Seq<char>>) -> Seq<char> {
    "  "@ + pad_right(shown_name(app, d, m), 32) + " "@ + pad_left(time, 12) + "\n"@
}

/// The schedule view of the first 12 rows, with `times[i]` shown for row `i`.
pub open spec fn schedule_section(first_seen: Seq<SeenRow>, times: Seq<Seq<char>>, d: Map<Seq<char>, Seq<char>>, m: Map<Seq<char>, Seq<char>>) -> Seq<char> {
    "  ── Average First Seen ──\n"@ + "  "@ + pad_right("APP"@, 32) + " "@ + pad_left("FIRST ACTIVE"@, 12)
        + "\n"@ + "  "@ + repeat('-', 46) + "\n"@ + concat(
        Seq::new(
            first_rows(first_seen, 12).len(),
            |i: int| schedule_row(first_seen[i].0@, times[i], d, m),
        ),
    ) + "\n"@
}

/// The times shown in the schedule view: `-` for rows without a positive time, the
/// local `HH:MM` of that time otherwise.
pub open spec fn schedule_times_ok(first_seen: Seq<SeenRow>, times: Seq<Seq<char>>) -> bool {
    &&& times.len() == first_rows(first_seen, 12).len()
    &&& forall|i: int|
        0 <= i < times.len() ==> if first_seen[i].1 > 0 {
            shows_local_time(first_seen[i].1 as int, times[i])
        } else {
            times[i] == "-"@
        }
}

/// Renders the schedule view with the given times (see `schedule_section`).
pub fn render_schedule_with(first_seen: &Vec<SeenRow>, times: &Vec<String>, desktop: &DesktopDB, app_meta: &NameMap) -> (r: String)
    requires
        times@.len() == first_rows(first_seen@, 12).len(),
    ensures
        r@ == schedule_section(first_seen@, times@.map_values(|t: String| t@), desktop.names(), app_meta@),
{
    let ghost d = desktop.names();
    let ghost m = app_meta@;
    let ghost ts = times@.map_values(|t: String| t@);
    let mut out: Vec<char> = Vec::new();
    push_str(&mut out, "  ── Average First Seen ──\n");
    push_str(&mut out, "  ");
    push_padded_literal_right(&mut out, "APP", 32);
    push_str(&mut out, " ");
    push_padded_literal_left(&mut out, "FIRST ACTIVE", 12);
    push_str(&mut out, "\n");
    push_str(&mut out, "  ");
    push_repeat(&mut out, '-', 46);
    push_str(&mut out, "\n");
    let ghost start = out@;
    let n: usize = times.len();
    let ghost rows = Seq::new(n as nat, |i: int| schedule_row(first_seen@[i].0@, ts[i], d, m));
    assert(rows.take(0) =~= Seq::<Seq<char>>::empty());
    let mut i: usize = 0;
    while i < n
        invariant
            i <= n,
            n == times@.len(),
            n <= first_seen@.len(),
            ts == times@.map_values(|t: String| t@),
            rows == Seq::new(n as nat, |i: int| schedule_row(first_seen@[i].0@, ts[i], d, m)),
            d == desktop.names(),
            m == app_meta@,
            out@ == start + concat(rows.take(i as int)),
        decreases n - i,
    {
        let ghost before = out@;
        push_str(&mut out, "  ");
        push_name(&mut out, &first_seen[i].0, desktop, app_meta);
        push_str(&mut out, " ");
        let tc = chars_of(times[i].as_str());
        push_pad_left(&mut out, &tc, 12);
        push_str(&mut out, "\n");
        proof {
            assert(out@ =~= before + rows[i as int]);
            lemma_concat_step(rows, i as int);
        }
        i = i + 1;
    }
    push_str(&mut out, "\n");
    assert(rows.take(n as int) =~= rows);
    assert(out@ =~= schedule_section(first_seen@, ts, d, m));
    string_of(&out)
}

/// The times shown in the schedule view: the local `HH:MM` of each of the first 12
/// positive first-seen times, `-` for the others.
pub fn schedule_times(first_seen: &Vec<SeenRow>) -> (r: Vec<String>)
    ensures
        schedule_times_ok(first_seen@, r@.map_values(|t: String| t@)),
{
    let n: usize = if first_seen.len() < 12 { first_seen.len() } else { 12 };
    let mut times: Vec<String> = Vec::new();
    let mut i: usize = 0;
    while i < n
        invariant
            i <= n,
            n == first_rows(first_seen@, 12).len(),
            n <= first_seen@.len(),
            times@.len() == i,
            forall|j: int|
                0 <= j < i ==> if first_seen@[j].1 > 0 {
                    shows_local_time(first_seen@[j].1 as int, times@[j]@)
                } else {
                    times@[j]@ == "-"@
                },
        decreases n - i,
    {
        let ts = first_seen[i].1;
        if ts > 0 {
            times.push(crate::dates::local_clock(ts));
        } else {
            times.push("-".to_owned());
        }
        i = i + 1;
    }
    times
}

/// Renders the schedule view: the 12 first rows, with their average first-seen time
/// in local `HH:MM`, or `-` when there is none.
pub fn render_schedule(first_seen: &Vec<SeenRow>, desktop: &DesktopDB, app_meta: &NameMap) -> (r: String)
    ensures
        exists|times: Seq<Seq<char>>|
            schedule_times_ok(first_seen@, times) && r@ == schedule_section(
                first_seen@,
                times,
                desktop.names(),
                app_meta@,
            ),
{
    let times = schedule_times(first_seen);
    render_schedule_with(first_seen, &times, desktop, app_meta)
}

// ------------------------------------------------------------------- the report

/// The seconds of all rows.
pub open spec fn usage_total(stats: Seq<UsageRow>) -> int
    decreases stats.len(),
{
    if stats.len() == 0 { 0 } else { usage_total(stats.drop_last()) + stats.last().1 }
}

/// Adding up the seconds row by row stays in the `i64` range.
pub open spec fn usage_total_fits(stats: Seq<UsageRow>) -> bool {
    forall|k: int| 0 <= k <= stats.len() ==> i64::MIN <= #[trigger] usage_total(stats.take(k)) <= i64::MAX
}

/// The total seconds of all rows.
pub fn total_seconds(stats: &Vec<UsageRow>) -> (r: i64)
    requires
        usage_total_fits(stats@),
    ensures
        r as int == usage_total(stats@),
{
    let mut total: i64 = 0;
    let mut k: usize = 0;
    assert(stats@.take(0) =~= Seq::<UsageRow>::empty());
    while k < stats.len()
        invariant
            k <= stats.len(),
            usage_total_fits(stats@),
            total as int == usage_total(stats@.take(k as int)),
        decreases stats.len() - k,
    {
        assert(stats@.take(k + 1).drop_last() =~= stats@.take(k as int));
        assert(i64::MIN <= usage_total(stats@.take(k + 1)) <= i64::MAX);
        total = total + stats[k].1;
        k = k + 1;
    }
    assert(stats@.take(stats.len() as int) =~= stats@);
    total
}

/// The head of the analysis: title with the period and the total tracked time.
pub open spec fn report_head(days: int, from: Seq<char>, today: Seq<char>, total: int) -> Seq<char> {
    "\n"@ + "  ══════ "@ + decimal(days) + "-Day Analysis ("@ + from + " ~ "@ + today + ") ══════\n"@
        + "  Total tracked: "@ + duration_text(total) + "\n"@ + "\n"@
}

} // verus!
