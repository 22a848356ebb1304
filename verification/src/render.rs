//! Text rendering of durations and of the live dashboard frame.
use vstd::prelude::*;
use crate::text::{
    chars_of, concat, decimal, decimal_of, lemma_concat_step, pad_left, pad_right,
    push_pad_left, push_pad_right, push_repeat, push_str, repeat, string_of, trun, truncated,
};
use crate::analyze::{usage_total, usage_total_fits, total_seconds, UsageRow};

verus! {

/// Rust's integer `/`: the quotient rounded toward zero (`b > 0`).
pub open spec fn quot(a: int, b: int) -> int {
    if a >= 0 { a / b } else { -((-a) / b) }
}

/// Rust's integer `%`: the remainder that takes the sign of `a` (`b > 0`).
pub open spec fn rem(a: int, b: int) -> int {
    a - b * quot(a, b)
}

/// `{:>3}h {:>2}m {:>2}s` of hours, minutes and seconds of `t` seconds.
pub open spec fn duration_text(t: int) -> Seq<char> {
    pad_left(decimal(quot(t, 3600)), 3) + "h "@ + pad_left(decimal(quot(rem(t, 3600), 60)), 2)
        + "m "@ + pad_left(decimal(rem(t, 60)), 2) + "s"@
}

/// Appends `duration_text(total_secs)`.
pub fn push_duration(out: &mut Vec<char>, total_secs: i64)
    ensures
        final(out)@ == old(out)@ + duration_text(total_secs as int),
{
    let h = total_secs / 3600;
    let m = (total_secs % 3600) / 60;
    let s = total_secs % 60;
    assert(h == quot(total_secs as int, 3600));
    assert(m == quot(rem(total_secs as int, 3600), 60));
    assert(s == rem(total_secs as int, 60));
    let hs = decimal_of(h);
    let ms = decimal_of(m);
    let ss = decimal_of(s);
    push_pad_left(out, &hs, 3);
    push_str(out, "h ");
    push_pad_left(out, &ms, 2);
    push_str(out, "m ");
    push_pad_left(out, &ss, 2);
    push_str(out, "s");
    assert(out@ =~= old(out)@ + duration_text(total_secs as int));
}

/// Formats a number of seconds as hours, minutes and seconds, `{:>3}h {:>2}m {:>2}s`.
pub fn format_duration(total_secs: i64) -> (r: String)
    ensures
        r@ == duration_text(total_secs as int),
{
    let mut out: Vec<char> = Vec::new();
    push_duration(&mut out, total_secs);
    assert(out@ =~= duration_text(total_secs as int));
    string_of(&out)
}


/// Switches the terminal to the alternate screen and hides the cursor.
pub fn init_screen() -> (r: String)
    ensures
        r@ == "\x1b[?1049h\x1b[?25l"@,
{
    "\x1b[?1049h\x1b[?25l".to_owned()
}

/// The status screen when the daemon cannot be reached at the socket `sock`: the
/// screen cleared, then `daemon not running (<sock> not found)`.
pub fn not_running_frame(sock: &str) -> (r: String)
    ensures
        r@ == "\x1b[H\x1b[Jdaemon not running ("@ + sock@ + " not found)\x1b[K"@,
{
    let mut out: Vec<char> = Vec::new();
    push_str(&mut out, "\x1b[H\x1b[Jdaemon not running (");
    push_str(&mut out, sock);
    push_str(&mut out, " not found)\x1b[K");
    string_of(&out)
}

/// Shows the cursor again and leaves the alternate screen.
pub fn restore_screen() -> (r: String)
    ensures
        r@ == "\x1b[?25h\x1b[?1049l"@,
{
    "\x1b[?25h\x1b[?1049l".to_owned()
}

/// One usage line of the dashboard.
pub open spec fn dashboard_row(u: (String, i64)) -> Seq<char> {
    "  "@ + pad_right(truncated(u.0@, 30), 30) + " "@ + duration_text(u.1 as int) + "\x1b[K\n"@
}

/// A full frame of the live dashboard: title, state line (idle mark, application,
/// window title), a rule, one line per usage entry, and a clear-to-end.
pub open spec fn dashboard_text(current: Seq<char>, app_id: Seq<char>, is_idle: bool, usage: Seq<(String, i64)>) -> Seq<char> {
    "\x1b[H"@ + "ZXTracker — real-time dashboard\x1b[K\n"@ + (if is_idle {
        "[IDLE] "@
    } else {
        Seq::empty()
    }) + pad_right(truncated(if app_id.len() == 0 { "-"@ } else { app_id }, 28), 30) + "  "@
        + truncated(current, 70) + "\x1b[K\n"@ + repeat('-', 80) + "\x1b[K\n"@ + concat(
        usage.map_values(|u: (String, i64)| dashboard_row(u)),
    ) + "\x1b[J"@
}

fn push_dashboard_row(out: &mut Vec<char>, u: &(String, i64))
    ensures
        final(out)@ == old(out)@ + dashboard_row(*u),
{
    push_str(out, "  ");
    let t = trun(u.0.as_str(), 30);
    push_pad_right(out, &chars_of(t.as_str()), 30);
    push_str(out, " ");
    push_duration(out, u.1);
    push_str(out, "\x1b[K\n");
    assert(out@ =~= old(out)@ + dashboard_row(*u));
}

/// The text of one dashboard frame (see `dashboard_text`).
pub fn render_dashboard(current: &str, app_id: &str, is_idle: bool, usage: &Vec<(String, i64)>) -> (r: String)
    ensures
        r@ == dashboard_text(current@, app_id@, is_idle, usage@),
{
    let mut out: Vec<char> = Vec::new();
    push_str(&mut out, "\x1b[H");
    push_str(&mut out, "ZXTracker — real-time dashboard\x1b[K\n");
    if is_idle {
        push_str(&mut out, "[IDLE] ");
    }
    let shown = if app_id.unicode_len() == 0 { trun("-", 28) } else { trun(app_id, 28) };
    push_pad_right(&mut out, &chars_of(shown.as_str()), 30);
    push_str(&mut out, "  ");
    let cur = trun(current, 70);
    push_str(&mut out, cur.as_str());
    push_str(&mut out, "\x1b[K\n");
    push_repeat(&mut out, '-', 80);
    push_str(&mut out, "\x1b[K\n");
    let ghost head = out@;
    assert(head =~= "\x1b[H"@ + "ZXTracker — real-time dashboard\x1b[K\n"@ + (if is_idle {
        "[IDLE] "@
    } else {
        Seq::empty()
    }) + pad_right(truncated(if app_id@.len() == 0 { "-"@ } else { app_id@ }, 28), 30) + "  "@
        + truncated(current@, 70) + "\x1b[K\n"@ + repeat('-', 80) + "\x1b[K\n"@);
    let ghost rows = usage@.map_values(|u: (String, i64)| dashboard_row(u));
    assert(rows.take(0) =~= Seq::<Seq<char>>::empty());
    let mut i: usize = 0;
    while i < usage.len()
        invariant
            i <= usage.len(),
            rows == usage@.map_values(|u: (String, i64)| dashboard_row(u)),
            out@ == head + concat(rows.take(i as int)),
        decreases usage.len() - i,
    {
        push_dashboard_row(&mut out, &usage[i]);
        proof { lemma_concat_step(rows, i as int); }
        i = i + 1;
    }
    push_str(&mut out, "\x1b[J");
    assert(rows.take(usage.len() as int) =~= rows);
    assert(out@ =~= dashboard_text(current@, app_id@, is_idle, usage@));
    string_of(&out)
}

/// One line of the usage table.
pub open spec fn table_row(r: UsageRow) -> Seq<char> {
    "  "@ + pad_right(truncated(r.0@, 30), 30) + " "@ + pad_left(duration_text(r.1 as int), 12) + " "@
        + pad_left(decimal(r.2 as int), 8) + "\n"@
}

/// The usage table of a period: label, headings, one line per row, total.
pub open spec fn usage_table_text(label: Seq<char>, usage: Seq<UsageRow>) -> Seq<char> {
    label + "\n"@ + repeat('-', 60) + "\n"@ + pad_right("APP"@, 32) + " "@ + pad_left("TIME"@, 12) + " "@
        + pad_left("TIMES"@, 8) + "\n"@ + repeat('-', 60) + "\n"@ + concat(
        usage.map_values(|r: UsageRow| table_row(r)),
    ) + repeat('-', 60) + "\n"@ + "  Total: "@ + duration_text(usage_total(usage)) + "\n"@
}

fn push_table_row(out: &mut Vec<char>, r: &UsageRow)
    ensures
        final(out)@ == old(out)@ + table_row(*r),
{
    push_str(out, "  ");
    let t = trun(r.0.as_str(), 30);
    push_pad_right(out, &chars_of(t.as_str()), 30);
    push_str(out, " ");
    let mut d: Vec<char> = Vec::new();
    push_duration(&mut d, r.1);
    push_pad_left(out, &d, 12);
    push_str(out, " ");
    push_pad_left(out, &decimal_of(r.2), 8);
    push_str(out, "\n");
    assert(out@ =~= old(out)@ + table_row(*r));
}

/// The usage table printed for a day, a week or a month.
pub fn usage_table(label: &str, usage: &Vec<UsageRow>) -> (r: String)
    requires
        usage_total_fits(usage@),
    ensures
        r@ == usage_table_text(label@, usage@),
{
    let total = total_seconds(usage);
    let mut out: Vec<char> = Vec::new();
    push_str(&mut out, label);
    push_str(&mut out, "\n");
    push_repeat(&mut out, '-', 60);
    push_str(&mut out, "\n");
    push_pad_right(&mut out, &chars_of("APP"), 32);
    push_str(&mut out, " ");
    push_pad_left(&mut out, &chars_of("TIME"), 12);
    push_str(&mut out, " ");
    push_pad_left(&mut out, &chars_of("TIMES"), 8);
    push_str(&mut out, "\n");
    push_repeat(&mut out, '-', 60);
    push_str(&mut out, "\n");
    let ghost head = out@;
    let ghost rows = usage@.map_values(|r: UsageRow| table_row(r));
    assert(rows.take(0) =~= Seq::<Seq<char>>::empty());
    let mut i: usize = 0;
    while i < usage.len()
        invariant
            i <= usage.len(),
            rows == usage@.map_values(|r: UsageRow| table_row(r)),
            out@ == head + concat(rows.take(i as int)),
        decreases usage.len() - i,
    {
        push_table_row(&mut out, &usage[i]);
        proof { lemma_concat_step(rows, i as int); }
        i = i + 1;
    }
    assert(rows.take(usage.len() as int) =~= rows);
    push_repeat(&mut out, '-', 60);
    push_str(&mut out, "\n");
    push_str(&mut out, "  Total: ");
    push_duration(&mut out, total);
    push_str(&mut out, "\n");
    assert(out@ =~= usage_table_text(label@, usage@));
    string_of(&out)
}

/// The seconds of all label rows.
pub open spec fn label_total(usage: Seq<(String, i64)>) -> int
    decreases usage.len(),
{
    if usage.len() == 0 { 0 } else { label_total(usage.drop_last()) + usage.last().1 }
}

/// Adding up the label rows one by one stays in the `i64` range.
pub open spec fn label_total_fits(usage: Seq<(String, i64)>) -> bool {
    forall|k: int| 0 <= k <= usage.len() ==> i64::MIN <= #[trigger] label_total(usage.take(k)) <= i64::MAX
}

/// One line of a label's usage.
pub open spec fn label_row(r: (String, i64)) -> Seq<char> {
    "  "@ + pad_right(truncated(r.0@, 30), 30) + " "@ + duration_text(r.1 as int) + "\n"@
}

/// The usage of the applications under a label: `[label] label usage`, one line per application,
/// total.
pub open spec fn label_usage_text(label: Seq<char>, usage: Seq<(String, i64)>) -> Seq<char> {
    "["@ + label + "] label usage\n"@ + repeat('-', 50) + "\n"@ + concat(usage.map_values(|r: (String, i64)| label_row(r)))
        + repeat('-', 50) + "\n"@ + "  Total: "@ + duration_text(label_total(usage)) + "\n"@
}

fn push_label_row(out: &mut Vec<char>, r: &(String, i64))
    ensures
        final(out)@ == old(out)@ + label_row(*r),
{
    push_str(out, "  ");
    let t = trun(r.0.as_str(), 30);
    push_pad_right(out, &chars_of(t.as_str()), 30);
    push_str(out, " ");
    push_duration(out, r.1);
    push_str(out, "\n");
    assert(out@ =~= old(out)@ + label_row(*r));
}

/// The text printed for a label's usage.
pub fn label_usage(label: &str, usage: &Vec<(String, i64)>) -> (r: String)
    requires
        label_total_fits(usage@),
    ensures
        r@ == label_usage_text(label@, usage@),
{
    let mut out: Vec<char> = Vec::new();
    push_str(&mut out, "[");
    push_str(&mut out, label);
    push_str(&mut out, "] label usage\n");
    push_repeat(&mut out, '-', 50);
    push_str(&mut out, "\n");
    let ghost head = out@;
    let ghost rows = usage@.map_values(|r: (String, i64)| label_row(r));
    assert(rows.take(0) =~= Seq::<Seq<char>>::empty());
    assert(usage@.take(0) =~= Seq::<(String, i64)>::empty());
    let mut total: i64 = 0;
    let mut i: usize = 0;
    while i < usage.len()
        invariant
            i <= usage.len(),
            label_total_fits(usage@),
            total as int == label_total(usage@.take(i as int)),
            rows == usage@.map_values(|r: (String, i64)| label_row(r)),
            out@ == head + concat(rows.take(i as int)),
        decreases usage.len() - i,
    {
        push_label_row(&mut out, &usage[i]);
        proof {
            lemma_concat_step(rows, i as int);
            assert(usage@.take(i + 1).drop_last() =~= usage@.take(i as int));
            assert(i64::MIN <= label_total(usage@.take(i + 1)) <= i64::MAX);
        }
        total = total + usage[i].1;
        i = i + 1;
    }
    assert(rows.take(usage.len() as int) =~= rows);
    assert(usage@.take(usage.len() as int) =~= usage@);
    push_repeat(&mut out, '-', 50);
    push_str(&mut out, "\n");
    push_str(&mut out, "  Total: ");
    push_duration(&mut out, total);
    push_str(&mut out, "\n");
    assert(out@ =~= label_usage_text(label@, usage@));
    string_of(&out)
}

} // verus!
